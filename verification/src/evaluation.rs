//! Evaluation of a postfix sequence against an environment.
//!
//! Integers are computed here. Whatever involves a decimal is floating-point
//! work, and is not done here: the evaluation stops with a [`DecimalTask`]
//! and goes on once the caller has supplied the answer.

use crate::environment::Environment;
use crate::environment::value_of;
use crate::integer::Integer;
use crate::integer::integer_text;
use crate::integer::truncated_quotient;
use crate::parser::token_views;
use crate::token::MathFunction;
use crate::token::Number;
use crate::token::NumberView;
use crate::token::Operator;
use crate::token::Token;
use crate::token::TokenView;
use vstd::arithmetic::power::pow;
use vstd::prelude::*;

verus! {

/// Why an evaluation failed.
#[derive(Debug, PartialEq, Eq, Clone, Copy, Structural)]
pub enum ResolveError {
    /// An operator or a function found too few operands.
    MissingOperand,
    /// A bracket was left in the postfix sequence: the brackets of the
    /// expression do not match.
    UnbalancedBracket,
    /// The sequence is used up and no value is left.
    NoResult,
    /// The sequence is used up and more than one value is left.
    LeftoverOperands,
    /// An integer was divided by the integer zero.
    DivisionByZero,
    /// The exponent of an integer power is negative or too large.
    ExponentOutOfRange,
    /// The operator is negation or factorial, which are not evaluated.
    UnsupportedOperator,
    /// The decimal work could not be done, or the answer does not fit the
    /// task.
    Conversion,
    /// An answer was supplied while no task was open.
    NotWaiting,
}

/// The three kinds of failure.
#[derive(Debug, PartialEq, Eq, Clone, Copy, Structural)]
pub enum ErrorKind {
    /// The expression is not well formed.
    Malformed,
    /// A computation has no result.
    Arithmetic,
    /// The evaluation was not driven as it asks to be.
    Usage,
}

/// The kind of failure that `e` is.
pub open spec fn kind_of(e: ResolveError) -> ErrorKind {
    match e {
        ResolveError::MissingOperand => ErrorKind::Malformed,
        ResolveError::UnbalancedBracket => ErrorKind::Malformed,
        ResolveError::NoResult => ErrorKind::Malformed,
        ResolveError::LeftoverOperands => ErrorKind::Malformed,
        ResolveError::UnsupportedOperator => ErrorKind::Malformed,
        ResolveError::DivisionByZero => ErrorKind::Arithmetic,
        ResolveError::ExponentOutOfRange => ErrorKind::Arithmetic,
        ResolveError::Conversion => ErrorKind::Arithmetic,
        ResolveError::NotWaiting => ErrorKind::Usage,
    }
}

/// What `e` says to a reader.
pub open spec fn message_of(e: ResolveError) -> Seq<char> {
    match e {
        ResolveError::MissingOperand => "an operator or a function lacks an operand"@,
        ResolveError::UnbalancedBracket => "the brackets do not match"@,
        ResolveError::NoResult => "the expression has no value"@,
        ResolveError::LeftoverOperands => "the expression leaves more than one value"@,
        ResolveError::DivisionByZero => "division of an integer by zero"@,
        ResolveError::ExponentOutOfRange => "the exponent is negative or too large"@,
        ResolveError::UnsupportedOperator => "negation and factorial are not evaluated"@,
        ResolveError::Conversion => "the decimal work could not be done"@,
        ResolveError::NotWaiting => "no decimal work was asked for"@,
    }
}

impl ResolveError {
    /// What this failure says to a reader.
    pub fn message(&self) -> (r: &'static str)
        ensures
            r@ == message_of(*self),
            r@.len() > 0,
    {
        proof {
            reveal_strlit("an operator or a function lacks an operand");
            reveal_strlit("the brackets do not match");
            reveal_strlit("the expression has no value");
            reveal_strlit("the expression leaves more than one value");
            reveal_strlit("division of an integer by zero");
            reveal_strlit("the exponent is negative or too large");
            reveal_strlit("negation and factorial are not evaluated");
            reveal_strlit("the decimal work could not be done");
            reveal_strlit("no decimal work was asked for");
        }
        match self {
            ResolveError::MissingOperand => "an operator or a function lacks an operand",
            ResolveError::UnbalancedBracket => "the brackets do not match",
            ResolveError::NoResult => "the expression has no value",
            ResolveError::LeftoverOperands => "the expression leaves more than one value",
            ResolveError::DivisionByZero => "division of an integer by zero",
            ResolveError::ExponentOutOfRange => "the exponent is negative or too large",
            ResolveError::UnsupportedOperator => "negation and factorial are not evaluated",
            ResolveError::Conversion => "the decimal work could not be done",
            ResolveError::NotWaiting => "no decimal work was asked for",
        }
    }

    /// The kind of failure that this is.
    pub fn kind(&self) -> (r: ErrorKind)
        ensures
            r == kind_of(*self),
    {
        match self {
            ResolveError::MissingOperand => ErrorKind::Malformed,
            ResolveError::UnbalancedBracket => ErrorKind::Malformed,
            ResolveError::NoResult => ErrorKind::Malformed,
            ResolveError::LeftoverOperands => ErrorKind::Malformed,
            ResolveError::UnsupportedOperator => ErrorKind::Malformed,
            ResolveError::DivisionByZero => ErrorKind::Arithmetic,
            ResolveError::ExponentOutOfRange => ErrorKind::Arithmetic,
            ResolveError::Conversion => ErrorKind::Arithmetic,
            ResolveError::NotWaiting => ErrorKind::Usage,
        }
    }
}

/// Floating-point work that an evaluation waits for.
///
/// The work is on binary64 values. An integer among the numbers of a task
/// is first to be converted to binary64; where that cannot be done, the
/// answer is `Failed`.
#[derive(Debug, PartialEq)]
pub enum DecimalTask {
    /// The operator applied to the left and the right operand. It is one of
    /// `Add`, `Sub`, `Mul`, `Div` and `Pow`, and at least one of the operands
    /// is a decimal. Division by zero is no failure: it gives an infinity
    /// or a value that is no number. The answer is a value.
    Binary(Operator, Number, Number),
    /// The function applied to its one argument. The answer is a value.
    Unary(MathFunction, Number),
    /// `Max` or `Min` of two arguments: the one popped first, then the one
    /// popped second. The answer is a value.
    Pair(MathFunction, Number, Number),
    /// The text that the decimal with these bits is printed as. The number
    /// beside it is what will be bound to that text. The answer is a text.
    Key(u64, Number),
}

/// What a [`DecimalTask`] stands for.
pub enum DecimalTaskView {
    Binary(Operator, NumberView, NumberView),
    Unary(MathFunction, NumberView),
    Pair(MathFunction, NumberView, NumberView),
    Key(u64, NumberView),
}

impl View for DecimalTask {
    type V = DecimalTaskView;

    open spec fn view(&self) -> DecimalTaskView {
        match self {
            DecimalTask::Binary(op, left, right) => DecimalTaskView::Binary(*op, left@, right@),
            DecimalTask::Unary(f, x) => DecimalTaskView::Unary(*f, x@),
            DecimalTask::Pair(f, first, second) => DecimalTaskView::Pair(*f, first@, second@),
            DecimalTask::Key(bits, value) => DecimalTaskView::Key(*bits, value@),
        }
    }
}

impl Clone for DecimalTask {
    fn clone(&self) -> (r: Self)
        ensures
            r@ == self@,
    {
        match self {
            DecimalTask::Binary(op, left, right) => DecimalTask::Binary(
                *op,
                left.clone(),
                right.clone(),
            ),
            DecimalTask::Unary(f, x) => DecimalTask::Unary(*f, x.clone()),
            DecimalTask::Pair(f, first, second) => DecimalTask::Pair(
                *f,
                first.clone(),
                second.clone(),
            ),
            DecimalTask::Key(bits, value) => DecimalTask::Key(*bits, value.clone()),
        }
    }
}

/// The answer to a [`DecimalTask`].
#[derive(Debug, PartialEq)]
pub enum DecimalReply {
    /// The bits of the binary64 result.
    Value(u64),
    /// The text of a decimal.
    Text(String),
    /// The work could not be done.
    Failed,
}

/// What a [`DecimalReply`] stands for.
pub enum DecimalReplyView {
    Value(u64),
    Text(Seq<char>),
    Failed,
}

impl View for DecimalReply {
    type V = DecimalReplyView;

    open spec fn view(&self) -> DecimalReplyView {
        match self {
            DecimalReply::Value(bits) => DecimalReplyView::Value(*bits),
            DecimalReply::Text(s) => DecimalReplyView::Text(s@),
            DecimalReply::Failed => DecimalReplyView::Failed,
        }
    }
}

/// Where an evaluation stands when it returns without failure.
#[derive(Debug, PartialEq)]
pub enum Resolution {
    /// The evaluation is complete, with this value.
    Value(Number),
    /// The evaluation waits for this decimal work to be done.
    Pending(DecimalTask),
}

/// What an evaluation returns: a value, an open task, or a failure.
pub enum Verdict {
    Value(NumberView),
    Pending(DecimalTaskView),
    Error(ResolveError),
}

/// The verdict that `r` stands for.
pub open spec fn verdict_of(r: Result<Resolution, ResolveError>) -> Verdict {
    match r {
        Ok(Resolution::Value(v)) => Verdict::Value(v@),
        Ok(Resolution::Pending(task)) => Verdict::Pending(task@),
        Err(e) => Verdict::Error(e),
    }
}

/// What each of the numbers in `v` stands for.
pub open spec fn number_views(v: Seq<Number>) -> Seq<NumberView> {
    v.map_values(|n: Number| n@)
}

/// The operand stack, its top last, and the environment.
pub struct Machine {
    pub stack: Seq<NumberView>,
    pub env: Map<Seq<char>, NumberView>,
}

/// What one token makes of a machine.
pub enum Outcome {
    /// The evaluation goes on from this machine.
    Next(Machine),
    /// The evaluation waits, in this machine, for this decimal work.
    Ask(Machine, DecimalTaskView),
    /// The evaluation fails.
    Stop(ResolveError),
}

/// The result of a binary operator on two integers. Division rounds towards
/// zero and fails on a zero divisor; a power fails on an exponent that is
/// negative or larger than a `usize` can hold.
pub open spec fn exact(op: Operator, a: int, b: int) -> Result<int, ResolveError> {
    match op {
        Operator::Add => Ok(a + b),
        Operator::Sub => Ok(a - b),
        Operator::Mul => Ok(a * b),
        Operator::Div => if b == 0 {
            Err(ResolveError::DivisionByZero)
        } else {
            Ok(truncated_quotient(a, b))
        },
        Operator::Pow => if 0 <= b <= usize::MAX {
            Ok(pow(a, b as nat))
        } else {
            Err(ResolveError::ExponentOutOfRange)
        },
        _ => Err(ResolveError::UnsupportedOperator),
    }
}

/// A binary operator other than assignment meets its two operands: two
/// integers are computed exactly, anything else is decimal work.
pub open spec fn operate(op: Operator, left: NumberView, right: NumberView, m: Machine) -> Outcome {
    match (left, right) {
        (NumberView::Natural(a), NumberView::Natural(b)) => match exact(op, a, b) {
            Ok(v) => Outcome::Next(
                Machine { stack: m.stack.push(NumberView::Natural(v)), env: m.env },
            ),
            Err(e) => Outcome::Stop(e),
        },
        _ => Outcome::Ask(m, DecimalTaskView::Binary(op, left, right)),
    }
}

/// An assignment meets its two operands: the right one is bound to the text
/// of the left one, and is the value of the assignment. The text of a
/// decimal is decimal work.
pub open spec fn assign(left: NumberView, right: NumberView, m: Machine) -> Outcome {
    match left {
        NumberView::Natural(v) => Outcome::Next(
            Machine { stack: m.stack.push(right), env: m.env.insert(integer_text(v), right) },
        ),
        NumberView::Decimal(bits) => Outcome::Ask(m, DecimalTaskView::Key(bits, right)),
    }
}

/// What the token `t` makes of the machine `m`.
///
/// An operand is pushed; so is the value of a variable, which is the integer
/// zero if the variable is not bound. A bracket fails. An operator pops the
/// right and then the left operand; negation and factorial fail. A function
/// pops one argument, `Max` and `Min` two, and is always decimal work.
pub open spec fn step(m: Machine, t: TokenView) -> Outcome {
    let n = m.stack.len() as int;
    match t {
        TokenView::Operand(v) => Outcome::Next(Machine { stack: m.stack.push(v), env: m.env }),
        TokenView::Variable(name) => Outcome::Next(
            Machine { stack: m.stack.push(value_of(m.env, name)), env: m.env },
        ),
        TokenView::Bracket(_) => Outcome::Stop(ResolveError::UnbalancedBracket),
        TokenView::Operator(op) => if op == Operator::Une || op == Operator::Fac {
            Outcome::Stop(ResolveError::UnsupportedOperator)
        } else if n < 2 {
            Outcome::Stop(ResolveError::MissingOperand)
        } else {
            let rest = Machine { stack: m.stack.take(n - 2), env: m.env };
            if op == Operator::Eql {
                assign(m.stack[n - 2], m.stack[n - 1], rest)
            } else {
                operate(op, m.stack[n - 2], m.stack[n - 1], rest)
            }
        },
        TokenView::Function(f) => if f == MathFunction::Max || f == MathFunction::Min {
            if n < 2 {
                Outcome::Stop(ResolveError::MissingOperand)
            } else {
                Outcome::Ask(
                    Machine { stack: m.stack.take(n - 2), env: m.env },
                    DecimalTaskView::Pair(f, m.stack[n - 1], m.stack[n - 2]),
                )
            }
        } else {
            if n < 1 {
                Outcome::Stop(ResolveError::MissingOperand)
            } else {
                Outcome::Ask(
                    Machine { stack: m.stack.take(n - 1), env: m.env },
                    DecimalTaskView::Unary(f, m.stack[n - 1]),
                )
            }
        },
    }
}

/// The verdict on a sequence that is used up: the one value that is left,
/// or a failure.
pub open spec fn finish(stack: Seq<NumberView>) -> Verdict {
    if stack.len() == 1 {
        Verdict::Value(stack[0])
    } else if stack.len() == 0 {
        Verdict::Error(ResolveError::NoResult)
    } else {
        Verdict::Error(ResolveError::LeftoverOperands)
    }
}

/// Where a run of the evaluation has led. After a value or a failure the
/// stack is empty and the cursor is at the start; with a task open they are
/// what the evaluation goes on from.
pub struct Run {
    pub verdict: Verdict,
    pub machine: Machine,
    pub cursor: int,
}

/// The evaluation of `tokens` from the token at `cursor` on, in the machine
/// `m`, up to its end, its failure, or the first decimal work.
pub open spec fn run(tokens: Seq<TokenView>, cursor: int, m: Machine) -> Run
    decreases tokens.len() - cursor,
{
    if cursor < 0 || cursor >= tokens.len() {
        Run {
            verdict: finish(m.stack),
            machine: Machine { stack: Seq::empty(), env: m.env },
            cursor: 0,
        }
    } else {
        match step(m, tokens[cursor]) {
            Outcome::Next(next) => run(tokens, cursor + 1, next),
            Outcome::Ask(waiting, task) => Run {
                verdict: Verdict::Pending(task),
                machine: waiting,
                cursor: cursor + 1,
            },
            Outcome::Stop(e) => Run {
                verdict: Verdict::Error(e),
                machine: Machine { stack: Seq::empty(), env: m.env },
                cursor: 0,
            },
        }
    }
}

/// The machine that the evaluation goes on from once `reply` has answered
/// `task` in the machine `m`: a value is pushed; a text becomes the name
/// that the number of the task is bound to, and that number is pushed.
/// `None` if the reply does not answer the task.
pub open spec fn answered(task: DecimalTaskView, reply: DecimalReplyView, m: Machine) -> Option<
    Machine,
> {
    match (task, reply) {
        (DecimalTaskView::Key(_, value), DecimalReplyView::Text(name)) => Some(
            Machine { stack: m.stack.push(value), env: m.env.insert(name, value) },
        ),
        (DecimalTaskView::Key(_, _), _) => None,
        (_, DecimalReplyView::Value(bits)) => Some(
            Machine { stack: m.stack.push(NumberView::Decimal(bits)), env: m.env },
        ),
        _ => None,
    }
}

/// Applies a binary operator other than assignment, negation and factorial
/// to two integers.
pub fn combine(op: Operator, a: &Integer, b: &Integer) -> (r: Result<Integer, ResolveError>)
    ensures
        match exact(op, a@, b@) {
            Ok(v) => r matches Ok(x) && x@ == v,
            Err(e) => r matches Err(x) && x == e,
        },
{
    match op {
        Operator::Add => Ok(a.plus(b)),
        Operator::Sub => Ok(a.minus(b)),
        Operator::Mul => Ok(a.times(b)),
        Operator::Div => match a.checked_div(b) {
            Some(q) => Ok(q),
            None => Err(ResolveError::DivisionByZero),
        },
        Operator::Pow => match a.checked_pow(b) {
            Some(p) => Ok(p),
            None => Err(ResolveError::ExponentOutOfRange),
        },
        _ => Err(ResolveError::UnsupportedOperator),
    }
}

/// Takes the two topmost numbers off the stack: the top one second in the
/// pair.
fn pop_two(stack: &mut Vec<Number>) -> (r: (Number, Number))
    requires
        old(stack)@.len() >= 2,
    ensures
        number_views(final(stack)@) == number_views(old(stack)@).take(old(stack)@.len() - 2),
        r.0@ == number_views(old(stack)@)[old(stack)@.len() - 2],
        r.1@ == number_views(old(stack)@)[old(stack)@.len() - 1],
{
    let top = stack.pop().unwrap();
    let below = stack.pop().unwrap();
    (below, top)
}

/// Lets one token act on the operand stack and the environment. `Ok(None)`
/// says that the evaluation goes on; a task, that it waits; an error, that
/// it has failed, and then nothing has changed.
pub fn step_once<'a>(t: &Token<'a>, env: &mut Environment, stack: &mut Vec<Number>) -> (r: Result<
    Option<DecimalTask>,
    ResolveError,
>)
    ensures
        match step(Machine { stack: number_views(old(stack)@), env: old(env)@ }, t@) {
            Outcome::Next(m) => {
                &&& r matches Ok(None)
                &&& number_views(final(stack)@) == m.stack
                &&& final(env)@ == m.env
            },
            Outcome::Ask(m, task) => {
                &&& r matches Ok(Some(asked))
                &&& asked@ == task
                &&& number_views(final(stack)@) == m.stack
                &&& final(env)@ == m.env
            },
            Outcome::Stop(e) => {
                &&& r matches Err(x)
                &&& x == e
                &&& final(stack)@ == old(stack)@
                &&& final(env)@ == old(env)@
            },
        },
{
    let n = stack.len();
    match t {
        Token::Operand(v) => {
            stack.push(v.clone());
            Ok(None)
        },
        Token::Variable(name) => {
            let v = env.lookup(name);
            stack.push(v);
            Ok(None)
        },
        Token::Bracket(_) => Err(ResolveError::UnbalancedBracket),
        Token::Operator(op) => {
            match op {
                Operator::Une | Operator::Fac => {
                    return Err(ResolveError::UnsupportedOperator);
                },
                _ => {},
            }
            if n < 2 {
                return Err(ResolveError::MissingOperand);
            }
            match op {
                Operator::Eql => {
                    let (left, right) = pop_two(stack);
                    let ghost rest = number_views(stack@);
                    match left {
                        Number::NaturalNumber(v) => {
                            env.set(v.to_text(), right.clone());
                            stack.push(right);
                            Ok(None)
                        },
                        Number::DecimalNumber(bits) => Ok(Some(DecimalTask::Key(bits, right))),
                    }
                },
                _ => {
                    let computed = match (&stack[n - 2], &stack[n - 1]) {
                        (Number::NaturalNumber(a), Number::NaturalNumber(b)) => Some(
                            combine(*op, a, b),
                        ),
                        _ => None,
                    };
                    match computed {
                        Some(Ok(v)) => {
                            let ghost value = v@;
                            let _ = pop_two(stack);
                            let ghost rest = number_views(stack@);
                            stack.push(Number::NaturalNumber(v));
                            assert(number_views(stack@) =~= rest.push(
                                NumberView::Natural(value),
                            ));
                            Ok(None)
                        },
                        Some(Err(e)) => Err(e),
                        None => {
                            let (left, right) = pop_two(stack);
                            Ok(Some(DecimalTask::Binary(*op, left, right)))
                        },
                    }
                },
            }
        },
        Token::Function(f) => {
            match f {
                MathFunction::Max | MathFunction::Min => {
                    if n < 2 {
                        return Err(ResolveError::MissingOperand);
                    }
                    let (second, first) = pop_two(stack);
                    Ok(Some(DecimalTask::Pair(*f, first, second)))
                },
                _ => {
                    if n < 1 {
                        return Err(ResolveError::MissingOperand);
                    }
                    let x = stack.pop().unwrap();
                    Ok(Some(DecimalTask::Unary(*f, x)))
                },
            }
        },
    }
}

/// Evaluates `tokens` from the token at `start` on, up to the end, a
/// failure, or the first decimal work. Returns the verdict and the place
/// that the evaluation goes on from.
pub fn evaluate<'a>(
    tokens: &Vec<Token<'a>>,
    env: &mut Environment,
    stack: &mut Vec<Number>,
    start: usize,
) -> (r: (Result<Resolution, ResolveError>, usize))
    ensures
        ({
            let led = run(
                token_views(tokens@),
                start as int,
                Machine { stack: number_views(old(stack)@), env: old(env)@ },
            );
            &&& verdict_of(r.0) == led.verdict
            &&& number_views(final(stack)@) == led.machine.stack
            &&& final(env)@ == led.machine.env
            &&& r.1 == led.cursor
        }),
{
    let ghost views = token_views(tokens@);
    let ghost goal = run(
        views,
        start as int,
        Machine { stack: number_views(stack@), env: env@ },
    );
    let mut i: usize = start;
    while i < tokens.len()
        invariant
            views == token_views(tokens@),
            goal == run(
                views,
                start as int,
                Machine { stack: number_views(old(stack)@), env: old(env)@ },
            ),
            run(views, i as int, Machine { stack: number_views(stack@), env: env@ }) == goal,
        decreases tokens@.len() - i,
    {
        match step_once(&tokens[i], env, stack) {
            Ok(None) => {},
            Ok(Some(task)) => {
                return (Ok(Resolution::Pending(task)), i + 1);
            },
            Err(e) => {
                stack.clear();
                return (Err(e), 0);
            },
        }
        i += 1;
    }
    let verdict = if stack.len() == 1 {
        match stack.pop() {
            Some(v) => Ok(Resolution::Value(v)),
            None => Err(ResolveError::NoResult),
        }
    } else if stack.len() == 0 {
        Err(ResolveError::NoResult)
    } else {
        Err(ResolveError::LeftoverOperands)
    };
    stack.clear();
    (verdict, 0)
}

} // verus!
