//! Conversion of an expression to postfix notation, and its evaluation.

use crate::environment::constants;
use crate::environment::Environment;
use crate::environment::value_of;
use crate::evaluation::answered;
use crate::evaluation::DecimalReply;
use crate::evaluation::DecimalTask;
use crate::evaluation::DecimalTaskView;
use crate::evaluation::evaluate;
use crate::evaluation::Machine;
use crate::evaluation::number_views;
use crate::evaluation::Resolution;
use crate::evaluation::ResolveError;
use crate::evaluation::run;
use crate::evaluation::Run;
use crate::evaluation::Verdict;
use crate::evaluation::verdict_of;
use crate::parser::lexed;
use crate::parser::ParseError;
use crate::parser::Parser;
use crate::parser::token_views;
use crate::token::Bracket;
use crate::token::Number;
use crate::token::NumberView;
use crate::token::Operator;
use crate::token::Token;
use crate::token::TokenView;
use crate::token::yields_to;
use vstd::prelude::*;

verus! {

/// The two sequences that the conversion to postfix notation works on: the
/// operator stack, its top last, and the output.
pub struct Yard {
    pub stack: Seq<TokenView>,
    pub output: Seq<TokenView>,
}

/// A closing bracket arrives: what is on the stack goes to the output, top
/// first, down to the nearest opening bracket, which is dropped. Without an
/// opening bracket the whole stack goes.
pub open spec fn unwind(y: Yard) -> Yard
    decreases y.stack.len(),
{
    if y.stack.len() == 0 {
        y
    } else if y.stack.last() == TokenView::Bracket(Bracket::Open) {
        Yard { stack: y.stack.drop_last(), output: y.output }
    } else {
        unwind(Yard { stack: y.stack.drop_last(), output: y.output.push(y.stack.last()) })
    }
}

/// Whether the top of `stack` is an operator that the incoming `op` sends to
/// the output before it is pushed itself.
pub open spec fn top_goes_first(op: Operator, stack: Seq<TokenView>) -> bool {
    stack.len() > 0 && stack.last() is Operator && yields_to(op, stack.last()->Operator_0)
}

/// The operator `op` arrives: as long as the top of the stack is an operator
/// that goes first, it moves to the output.
pub open spec fn give_way(op: Operator, y: Yard) -> Yard
    decreases y.stack.len(),
{
    if top_goes_first(op, y.stack) {
        give_way(op, Yard { stack: y.stack.drop_last(), output: y.output.push(y.stack.last()) })
    } else {
        y
    }
}

/// The yard after the token `t` has arrived.
pub open spec fn shunt(y: Yard, t: TokenView) -> Yard {
    match t {
        TokenView::Operand(_) => Yard { stack: y.stack, output: y.output.push(t) },
        TokenView::Variable(_) => Yard { stack: y.stack, output: y.output.push(t) },
        TokenView::Function(_) => Yard { stack: y.stack.push(t), output: y.output },
        TokenView::Bracket(Bracket::Open) => Yard { stack: y.stack.push(t), output: y.output },
        TokenView::Bracket(Bracket::Close) => unwind(y),
        TokenView::Operator(op) => {
            let z = give_way(op, y);
            Yard { stack: z.stack.push(t), output: z.output }
        },
    }
}

/// The yard after all of `tokens` have arrived, from left to right.
pub open spec fn shunted(tokens: Seq<TokenView>) -> Yard
    decreases tokens.len(),
{
    if tokens.len() == 0 {
        Yard { stack: Seq::empty(), output: Seq::empty() }
    } else {
        shunt(shunted(tokens.drop_last()), tokens.last())
    }
}

/// The postfix form of the infix sequence `tokens`: the output once all
/// tokens have arrived, then what is left on the stack, top first.
pub open spec fn postfix_of(tokens: Seq<TokenView>) -> Seq<TokenView> {
    let y = shunted(tokens);
    y.output + y.stack.reverse()
}

/// `base`, and the integer zero for each variable among `tokens` that `base`
/// does not bind.
pub open spec fn with_variables(base: Map<Seq<char>, NumberView>, tokens: Seq<TokenView>) -> Map<
    Seq<char>,
    NumberView,
> {
    Map::new(
        |name: Seq<char>| base.contains_key(name) || tokens.contains(TokenView::Variable(name)),
        |name: Seq<char>| value_of(base, name),
    )
}

/// The yard that is made of the two vectors of the conversion.
pub open spec fn yard_of<'a>(stack: Seq<Token<'a>>, output: Seq<Token<'a>>) -> Yard {
    Yard { stack: token_views(stack), output: token_views(output) }
}

/// What a task that may be missing stands for.
pub open spec fn task_view(task: Option<DecimalTask>) -> Option<DecimalTaskView> {
    match task {
        Some(t) => Some(t@),
        None => None,
    }
}

/// What a resolver holds: the postfix sequence, the environment, and, while
/// a decimal task is open, the place and the operand stack that the
/// evaluation goes on from.
pub struct ResolverView {
    pub tokens: Seq<TokenView>,
    pub env: Map<Seq<char>, NumberView>,
    pub cursor: int,
    pub stack: Seq<NumberView>,
    pub pending: Option<DecimalTaskView>,
}

/// A resolver at rest: nothing is being evaluated.
pub open spec fn at_rest(tokens: Seq<TokenView>, env: Map<Seq<char>, NumberView>) -> ResolverView {
    ResolverView { tokens, env, cursor: 0, stack: Seq::empty(), pending: None }
}

/// The resolver after a run of its evaluation has led to `led`.
pub open spec fn after(tokens: Seq<TokenView>, led: Run) -> ResolverView {
    ResolverView {
        tokens,
        env: led.machine.env,
        cursor: led.cursor,
        stack: led.machine.stack,
        pending: match led.verdict {
            Verdict::Pending(task) => Some(task),
            _ => None,
        },
    }
}

/// The resolver that an expression is parsed into, in the environment
/// `base`: its tokens in postfix order, and `base` with the integer zero
/// for each variable that it does not bind.
pub open spec fn parsed(
    s: Seq<char>,
    decimals: Seq<Option<u64>>,
    base: Map<Seq<char>, NumberView>,
) -> Result<ResolverView, ParseError> {
    match lexed(s, decimals) {
        Ok(tokens) => Ok(at_rest(postfix_of(tokens), with_variables(base, tokens))),
        Err(e) => Err(e),
    }
}

/// An expression in postfix notation together with the environment that it
/// is evaluated in.
///
/// To evaluate it, call `resolve`; as long as that returns a pending
/// [`DecimalTask`], do the task and hand the answer to `supply`. Evaluation
/// leaves the expression in place: it can be resolved again, in the
/// environment as the last evaluation left it.
pub struct RpnResolver<'a> {
    rpn_expr: Vec<Token<'a>>,
    local_heap: Environment,
    cursor: usize,
    stack: Vec<Number>,
    pending: Option<DecimalTask>,
}

impl<'a> View for RpnResolver<'a> {
    type V = ResolverView;

    closed spec fn view(&self) -> ResolverView {
        ResolverView {
            tokens: token_views(self.rpn_expr@),
            env: self.local_heap@,
            cursor: self.cursor as int,
            stack: number_views(self.stack@),
            pending: task_view(self.pending),
        }
    }
}

impl<'a> RpnResolver<'a> {
    /// Converts an infix sequence to postfix notation, and binds in `env`
    /// each of its variables that `env` does not bind yet to the integer
    /// zero.
    pub fn convert(infix_stack: &Vec<Token<'a>>, env: Environment) -> (r: (
        Vec<Token<'a>>,
        Environment,
    ))
        ensures
            token_views(r.0@) == postfix_of(token_views(infix_stack@)),
            r.1@ == with_variables(env@, token_views(infix_stack@)),
    {
        let mut operators_stack: Vec<Token<'a>> = Vec::new();
        let mut postfix_stack: Vec<Token<'a>> = Vec::new();
        let mut local_heap = env;
        let ghost views = token_views(infix_stack@);
        let ghost base = env@;
        let mut i: usize = 0;
        proof {
            assert(token_views(postfix_stack@) =~= Seq::empty());
        }
        while i < infix_stack.len()
            invariant
                i <= infix_stack@.len(),
                views == token_views(infix_stack@),
                yard_of(operators_stack@, postfix_stack@) == shunted(views.take(i as int)),
                local_heap@ == with_variables(base, views.take(i as int)),
            decreases infix_stack@.len() - i,
        {
            let t = &infix_stack[i];
            let ghost before = views.take(i as int);
            let ghost now = views.take(i as int + 1);
            let ghost ops = token_views(operators_stack@);
            let ghost out = token_views(postfix_stack@);
            proof {
                assert(now.drop_last() =~= before);
                assert forall|name: Seq<char>|
                    now.contains(TokenView::Variable(name)) <==> (before.contains(
                        TokenView::Variable(name),
                    ) || t@ == TokenView::Variable(name)) by {
                    if t@ == TokenView::Variable(name) {
                        assert(now[i as int] == t@);
                    }
                }
            }
            match t {
                Token::Operand(_) => {
                    postfix_stack.push(t.clone());
                    assert(token_views(postfix_stack@) =~= out.push(t@));
                },
                Token::Bracket(Bracket::Open) => {
                    operators_stack.push(t.clone());
                    assert(token_views(operators_stack@) =~= ops.push(t@));
                },
                Token::Bracket(Bracket::Close) => {
                    loop
                        invariant_except_break
                            unwind(
                                yard_of(operators_stack@, postfix_stack@),
                            ) == unwind((Yard { stack: ops, output: out })),
                        ensures
                            yard_of(operators_stack@, postfix_stack@) == unwind(
                                (Yard { stack: ops, output: out }),
                            ),
                        decreases operators_stack@.len(),
                    {
                        let ghost s0 = token_views(operators_stack@);
                        let ghost o0 = token_views(postfix_stack@);
                        match operators_stack.pop() {
                            Some(token) => {
                                assert(token_views(operators_stack@) =~= s0.drop_last());
                                match token {
                                    Token::Bracket(Bracket::Open) => {
                                        break ;
                                    },
                                    _ => {
                                        postfix_stack.push(token);
                                        assert(token_views(postfix_stack@) =~= o0.push(s0.last()));
                                    },
                                }
                            },
                            None => {
                                break ;
                            },
                        }
                    }
                },
                Token::Operator(op1) => {
                    loop
                        invariant_except_break
                            give_way(
                                *op1,
                                yard_of(operators_stack@, postfix_stack@),
                            ) == give_way(*op1, (Yard { stack: ops, output: out })),
                        ensures
                            yard_of(operators_stack@, postfix_stack@) == give_way(
                                *op1,
                                (Yard { stack: ops, output: out }),
                            ),
                        decreases operators_stack@.len(),
                    {
                        let ghost s0 = token_views(operators_stack@);
                        let ghost o0 = token_views(postfix_stack@);
                        let n = operators_stack.len();
                        if n == 0 {
                            break ;
                        }
                        let goes = match &operators_stack[n - 1] {
                            Token::Operator(op2) => Token::compare_operator_priority(
                                Token::Operator(*op1),
                                Token::Operator(*op2),
                            ),
                            _ => false,
                        };
                        if !goes {
                            break ;
                        }
                        match operators_stack.pop() {
                            Some(token) => {
                                assert(token_views(operators_stack@) =~= s0.drop_last());
                                postfix_stack.push(token);
                                assert(token_views(postfix_stack@) =~= o0.push(s0.last()));
                            },
                            None => {},
                        }
                    }
                    let ghost s1 = token_views(operators_stack@);
                    operators_stack.push(t.clone());
                    assert(token_views(operators_stack@) =~= s1.push(t@));
                },
                Token::Function(_) => {
                    operators_stack.push(t.clone());
                    assert(token_views(operators_stack@) =~= ops.push(t@));
                },
                Token::Variable(name) => {
                    postfix_stack.push(t.clone());
                    assert(token_views(postfix_stack@) =~= out.push(t@));
                    if !local_heap.contains(name) {
                        local_heap.set((*name).to_owned(), Number::zero());
                    }
                },
            }
            i += 1;
        }
        assert(views.take(i as int) =~= views);
        let ghost y = shunted(views);
        while operators_stack.len() > 0
            invariant
                token_views(postfix_stack@) + token_views(operators_stack@).reverse()
                    == y.output + y.stack.reverse(),
            decreases operators_stack@.len(),
        {
            match operators_stack.pop() {
                Some(token) => {
                    postfix_stack.push(token);
                },
                None => {},
            }
        }
        (postfix_stack, local_heap)
    }

    /// Converts an infix sequence to postfix notation. The environment that
    /// comes with it binds `PI`, and each variable of the sequence to the
    /// integer zero.
    pub fn reverse_polish_notation(infix_stack: &Vec<Token<'a>>) -> (r: (
        Vec<Token<'a>>,
        Environment,
    ))
        ensures
            token_views(r.0@) == postfix_of(token_views(infix_stack@)),
            r.1@ == with_variables(constants(), token_views(infix_stack@)),
    {
        Self::convert(infix_stack, Environment::new())
    }

    /// Parses an expression for evaluation in a new environment, which
    /// binds `PI` and, to the integer zero, each variable of the expression.
    /// `decimals` holds, for each chunk of the expression in turn, the
    /// binary64 value that the chunk writes, by its bits; an entry is looked
    /// at only where its chunk is a decimal literal.
    ///
    /// Brackets that do not match are no error here: they fail the
    /// evaluation.
    pub fn parse(exp: &'a str, decimals: &Vec<Option<u64>>) -> (r: Result<
        RpnResolver<'a>,
        ParseError,
    >)
        ensures
            match parsed(exp@, decimals@, constants()) {
                Ok(view) => r matches Ok(resolver) && resolver@ == view,
                Err(e) => r matches Err(x) && x == e,
            },
    {
        Self::parse_in(exp, decimals, Environment::new())
    }

    /// Parses an expression for evaluation in the environment `env`, which
    /// keeps its bindings and gains, bound to the integer zero, each
    /// variable of the expression that it does not bind.
    pub fn parse_in(exp: &'a str, decimals: &Vec<Option<u64>>, env: Environment) -> (r: Result<
        RpnResolver<'a>,
        ParseError,
    >)
        ensures
            match parsed(exp@, decimals@, env@) {
                Ok(view) => r matches Ok(resolver) && resolver@ == view,
                Err(e) => r matches Err(x) && x == e,
            },
    {
        match Parser::parse(exp, decimals) {
            Ok(tokens) => {
                let (rpn_expr, local_heap) = Self::convert(&tokens, env);
                let stack: Vec<Number> = Vec::new();
                assert(number_views(stack@) =~= Seq::empty());
                Ok(RpnResolver { rpn_expr, local_heap, cursor: 0, stack, pending: None })
            },
            Err(e) => Err(e),
        }
    }

    /// Evaluates the expression from its start, up to its value, a failure,
    /// or the first decimal task. A task that was open is dropped.
    ///
    /// The environment keeps what the evaluation has bound, also when it
    /// fails.
    pub fn resolve(&mut self) -> (r: Result<Resolution, ResolveError>)
        ensures
            ({
                let led = run(
                    old(self)@.tokens,
                    0,
                    Machine { stack: Seq::empty(), env: old(self)@.env },
                );
                &&& verdict_of(r) == led.verdict
                &&& final(self)@ == after(old(self)@.tokens, led)
            }),
    {
        self.stack.clear();
        assert(number_views(self.stack@) =~= Seq::empty());
        self.pending = None;
        self.proceed(0)
    }

    /// Takes the answer to the open decimal task and goes on with the
    /// evaluation, up to its value, a failure, or the next decimal task.
    ///
    /// Without an open task this fails with `NotWaiting` and changes
    /// nothing. An answer that does not fit the task, or that reports a
    /// failure, ends the evaluation with `Conversion`.
    pub fn supply(&mut self, reply: DecimalReply) -> (r: Result<Resolution, ResolveError>)
        ensures
            match old(self)@.pending {
                None => {
                    &&& r == Err::<Resolution, ResolveError>(ResolveError::NotWaiting)
                    &&& final(self)@ == old(self)@
                },
                Some(task) => match answered(
                    task,
                    reply@,
                    Machine { stack: old(self)@.stack, env: old(self)@.env },
                ) {
                    None => {
                        &&& r == Err::<Resolution, ResolveError>(ResolveError::Conversion)
                        &&& final(self)@ == at_rest(old(self)@.tokens, old(self)@.env)
                    },
                    Some(m) => {
                        let led = run(old(self)@.tokens, old(self)@.cursor, m);
                        &&& verdict_of(r) == led.verdict
                        &&& final(self)@ == after(old(self)@.tokens, led)
                    },
                },
            },
    {
        let task = match self.pending.take() {
            Some(task) => task,
            None => {
                return Err(ResolveError::NotWaiting);
            },
        };
        let ghost before = number_views(self.stack@);
        match (task, reply) {
            (DecimalTask::Key(_, value), DecimalReply::Text(name)) => {
                self.local_heap.set(name, value.clone());
                self.stack.push(value);
                assert(number_views(self.stack@) =~= before.push(value@));
            },
            (DecimalTask::Key(_, _), _) => {
                self.stack.clear();
                assert(number_views(self.stack@) =~= Seq::empty());
                self.cursor = 0;
                return Err(ResolveError::Conversion);
            },
            (_, DecimalReply::Value(bits)) => {
                self.stack.push(Number::DecimalNumber(bits));
                assert(number_views(self.stack@) =~= before.push(NumberView::Decimal(bits)));
            },
            _ => {
                self.stack.clear();
                assert(number_views(self.stack@) =~= Seq::empty());
                self.cursor = 0;
                return Err(ResolveError::Conversion);
            },
        }
        let from = self.cursor;
        self.proceed(from)
    }

    /// Goes on with the evaluation from the token at `from`, and keeps what
    /// it has led to.
    fn proceed(&mut self, from: usize) -> (r: Result<Resolution, ResolveError>)
        requires
            old(self).pending is None,
        ensures
            ({
                let led = run(
                    old(self)@.tokens,
                    from as int,
                    Machine { stack: old(self)@.stack, env: old(self)@.env },
                );
                &&& verdict_of(r) == led.verdict
                &&& final(self)@ == after(old(self)@.tokens, led)
            }),
    {
        let (r, cursor) = evaluate(&self.rpn_expr, &mut self.local_heap, &mut self.stack, from);
        self.cursor = cursor;
        match &r {
            Ok(Resolution::Pending(task)) => {
                self.pending = Some(task.clone());
            },
            _ => {},
        }
        r
    }

    /// Binds `name` to `value` in the environment of this resolver, in
    /// place of any earlier binding.
    pub fn set(&mut self, name: String, value: Number)
        ensures
            final(self)@ == (ResolverView {
                env: old(self)@.env.insert(name@, value@),
                ..old(self)@
            }),
    {
        self.local_heap.set(name, value);
    }

    /// The environment of this resolver.
    pub fn environment(&self) -> (r: &Environment)
        ensures
            r@ == self@.env,
    {
        &self.local_heap
    }

    /// Gives up the resolver for its environment.
    pub fn into_environment(self) -> (r: Environment)
        ensures
            r@ == self@.env,
    {
        self.local_heap
    }

    /// The expression in postfix order.
    pub fn postfix(&self) -> (r: &Vec<Token<'a>>)
        ensures
            token_views(r@) == self@.tokens,
    {
        &self.rpn_expr
    }
}

} // verus!
