//! Numbers, operators, brackets, functions and the tokens made of them.

use crate::integer::Integer;
use crate::integer::integer_literal;
use crate::integer::integer_text;
use crate::integer::Order;
use crate::integer::order_of;
use crate::literal::is_decimal;
use crate::literal::is_decimal_literal;
use crate::literal::lemma_symbol_is_no_literal;
use vstd::prelude::*;
use vstd::string::StrSliceExecFns;

verus! {

/// A number: an exact integer, or a decimal.
///
/// A decimal is a binary64 floating-point value, kept as its bit pattern.
/// Nothing in this crate computes with it: see `DecimalTask`.
///
/// `==` on numbers tells whether both are integers of the same value or both
/// are decimals with the same bits; it does not promote an integer.
#[derive(Debug, PartialEq)]
pub enum Number {
    /// An exact integer.
    NaturalNumber(Integer),
    /// The bit pattern of a binary64 value.
    DecimalNumber(u64),
}

/// What a [`Number`] stands for.
pub enum NumberView {
    Natural(int),
    Decimal(u64),
}

impl View for Number {
    type V = NumberView;

    open spec fn view(&self) -> NumberView {
        match self {
            Number::NaturalNumber(v) => NumberView::Natural(v@),
            Number::DecimalNumber(bits) => NumberView::Decimal(*bits),
        }
    }
}

impl Clone for Number {
    fn clone(&self) -> (r: Self)
        ensures
            r@ == self@,
    {
        match self {
            Number::NaturalNumber(v) => Number::NaturalNumber(v.clone()),
            Number::DecimalNumber(bits) => Number::DecimalNumber(*bits),
        }
    }
}

impl Number {
    /// The integer zero.
    pub fn zero() -> (r: Number)
        ensures
            r@ == NumberView::Natural(0),
    {
        Number::NaturalNumber(Integer::zero())
    }

    /// How this number stands to `other`, where both are integers. Beside a
    /// decimal an integer is compared as a decimal, which is floating-point
    /// work and not done here.
    pub fn exact_order(&self, other: &Number) -> (r: Option<Order>)
        ensures
            match (self@, other@) {
                (NumberView::Natural(a), NumberView::Natural(b)) => r == Some(order_of(a, b)),
                _ => r is None,
            },
    {
        match (self, other) {
            (Number::NaturalNumber(a), Number::NaturalNumber(b)) => Some(a.compare(b)),
            _ => None,
        }
    }

    /// The decimal form of an integer. A decimal has no text here: to format
    /// it is floating-point work.
    pub fn to_text(&self) -> (r: Option<String>)
        ensures
            match self@ {
                NumberView::Natural(v) => r matches Some(s) && s@ == integer_text(v),
                NumberView::Decimal(_) => r is None,
            },
    {
        match self {
            Number::NaturalNumber(v) => Some(v.to_text()),
            Number::DecimalNumber(_) => None,
        }
    }
}

/// A binary or unary operator.
#[derive(Debug, PartialEq, Eq, Clone, Copy, Structural)]
pub enum Operator {
    /// Binary `+`.
    Add,
    /// Binary `-`.
    Sub,
    /// Binary `*`.
    Mul,
    /// Binary `/`.
    Div,
    /// Binary `^`: base, then exponent.
    Pow,
    /// Unary negation, written `#`.
    Une,
    /// Factorial, written `!`.
    Fac,
    /// Assignment, written `=`.
    Eql,
}

/// How consecutive operators of the same precedence group.
#[derive(Debug, PartialEq, Eq, Clone, Copy, Structural)]
pub enum Associate {
    /// Grouping from left to right.
    LeftAssociative,
    /// Grouping from right to left.
    RightAssociative,
}

/// A bracket, round or square.
#[derive(Debug, PartialEq, Eq, Clone, Copy, Structural)]
pub enum Bracket {
    /// `(` or `[`.
    Open,
    /// `)` or `]`.
    Close,
}

/// A mathematical function. All of them work on decimals; angles are in
/// radians.
#[derive(Debug, PartialEq, Eq, Clone, Copy, Structural)]
pub enum MathFunction {
    /// Sine.
    Sin,
    /// Cosine.
    Cos,
    /// Tangent.
    Tan,
    /// Arc sine.
    ASin,
    /// Arc cosine.
    ACos,
    /// Arc tangent.
    ATan,
    /// Natural logarithm.
    Ln,
    /// Logarithm to base 10.
    Log,
    /// Absolute value.
    Abs,
    /// Square root.
    Sqrt,
    /// The larger of two arguments. No text is read as this function.
    Max,
    /// The smaller of two arguments. No text is read as this function.
    Min,
    /// No function at all. No text is read as it, and no parsed expression
    /// evaluates it.
    Nil,
}

/// The smallest piece of an expression.
#[derive(Debug, PartialEq)]
pub enum Token<'a> {
    /// A number.
    Operand(Number),
    /// An operator.
    Operator(Operator),
    /// A bracket.
    Bracket(Bracket),
    /// A function name.
    Function(MathFunction),
    /// A variable name.
    Variable(&'a str),
}

/// What a [`Token`] stands for.
pub enum TokenView {
    Operand(NumberView),
    Operator(Operator),
    Bracket(Bracket),
    Function(MathFunction),
    Variable(Seq<char>),
}

impl<'a> View for Token<'a> {
    type V = TokenView;

    open spec fn view(&self) -> TokenView {
        match self {
            Token::Operand(n) => TokenView::Operand(n@),
            Token::Operator(op) => TokenView::Operator(*op),
            Token::Bracket(b) => TokenView::Bracket(*b),
            Token::Function(f) => TokenView::Function(*f),
            Token::Variable(name) => TokenView::Variable(name@),
        }
    }
}

impl<'a> Clone for Token<'a> {
    fn clone(&self) -> (r: Self)
        ensures
            r@ == self@,
    {
        match self {
            Token::Operand(n) => Token::Operand(n.clone()),
            Token::Operator(op) => Token::Operator(*op),
            Token::Bracket(b) => Token::Bracket(*b),
            Token::Function(f) => Token::Function(*f),
            Token::Variable(name) => Token::Variable(*name),
        }
    }
}

/// The operator that the symbol `c` writes.
pub open spec fn operator_of(c: char) -> Option<Operator> {
    if c == '+' {
        Some(Operator::Add)
    } else if c == '-' {
        Some(Operator::Sub)
    } else if c == '*' {
        Some(Operator::Mul)
    } else if c == '/' {
        Some(Operator::Div)
    } else if c == '^' {
        Some(Operator::Pow)
    } else if c == '#' {
        Some(Operator::Une)
    } else if c == '!' {
        Some(Operator::Fac)
    } else if c == '=' {
        Some(Operator::Eql)
    } else {
        None
    }
}

/// The symbol that writes `op`.
pub open spec fn operator_symbol(op: Operator) -> char {
    match op {
        Operator::Add => '+',
        Operator::Sub => '-',
        Operator::Mul => '*',
        Operator::Div => '/',
        Operator::Pow => '^',
        Operator::Une => '#',
        Operator::Fac => '!',
        Operator::Eql => '=',
    }
}

/// The bracket that the symbol `c` writes.
pub open spec fn bracket_of(c: char) -> Option<Bracket> {
    if c == '(' || c == '[' {
        Some(Bracket::Open)
    } else if c == ')' || c == ']' {
        Some(Bracket::Close)
    } else {
        None
    }
}

/// The symbol that writes `b`; the round one.
pub open spec fn bracket_symbol(b: Bracket) -> char {
    match b {
        Bracket::Open => '(',
        Bracket::Close => ')',
    }
}

/// Whether `c` stands alone in an expression: an operator symbol other than
/// `#`, or a bracket.
pub open spec fn is_symbol(c: char) -> bool {
    (operator_of(c) is Some && c != '#') || bracket_of(c) is Some
}

/// `c`, or its lower-case form if `c` is an ASCII capital.
pub open spec fn lowered(c: char) -> char {
    if 'A' <= c && c <= 'Z' {
        (c as int + 32) as char
    } else {
        c
    }
}

/// The name of `f` as it is written in an expression, in lower case.
/// `Max`, `Min` and `Nil` have none.
pub open spec fn written_name(f: MathFunction) -> Seq<char> {
    match f {
        MathFunction::Sin => seq!['s', 'i', 'n'],
        MathFunction::Cos => seq!['c', 'o', 's'],
        MathFunction::Tan => seq!['t', 'a', 'n'],
        MathFunction::ASin => seq!['a', 's', 'i', 'n'],
        MathFunction::ACos => seq!['a', 'c', 'o', 's'],
        MathFunction::ATan => seq!['a', 't', 'a', 'n'],
        MathFunction::Ln => seq!['l', 'n'],
        MathFunction::Log => seq!['l', 'o', 'g'],
        MathFunction::Abs => seq!['a', 'b', 's'],
        MathFunction::Sqrt => seq!['s', 'q', 'r', 't'],
        _ => Seq::empty(),
    }
}

/// Whether `s` writes `name`, whatever the case of its ASCII letters.
pub open spec fn spells(s: Seq<char>, name: Seq<char>) -> bool {
    s.map_values(|c: char| lowered(c)) == name
}

/// The function that `s` names, in any mix of upper and lower case.
pub open spec fn function_named(s: Seq<char>) -> Option<MathFunction> {
    if spells(s, written_name(MathFunction::Sin)) {
        Some(MathFunction::Sin)
    } else if spells(s, written_name(MathFunction::Cos)) {
        Some(MathFunction::Cos)
    } else if spells(s, written_name(MathFunction::Tan)) {
        Some(MathFunction::Tan)
    } else if spells(s, written_name(MathFunction::ASin)) {
        Some(MathFunction::ASin)
    } else if spells(s, written_name(MathFunction::ACos)) {
        Some(MathFunction::ACos)
    } else if spells(s, written_name(MathFunction::ATan)) {
        Some(MathFunction::ATan)
    } else if spells(s, written_name(MathFunction::Ln)) {
        Some(MathFunction::Ln)
    } else if spells(s, written_name(MathFunction::Log)) {
        Some(MathFunction::Log)
    } else if spells(s, written_name(MathFunction::Abs)) {
        Some(MathFunction::Abs)
    } else if spells(s, written_name(MathFunction::Sqrt)) {
        Some(MathFunction::Sqrt)
    } else {
        None
    }
}

/// The token that the chunk `s` is, where `decimal` is the binary64 value
/// that `s` writes, by its bits, if `s` is a decimal literal.
///
/// The first of these that applies decides: a lone operator symbol other
/// than `#`; a lone bracket; an integer literal; a decimal literal; a
/// function name. Any other chunk is a variable name, as it stands. Only
/// the empty chunk, and a decimal literal that comes without its value, are
/// no token.
pub open spec fn classify(s: Seq<char>, decimal: Option<u64>) -> Option<TokenView> {
    if s.len() == 0 {
        None
    } else if s.len() == 1 && is_symbol(s[0]) && operator_of(s[0]) is Some {
        Some(TokenView::Operator(operator_of(s[0])->0))
    } else if s.len() == 1 && bracket_of(s[0]) is Some {
        Some(TokenView::Bracket(bracket_of(s[0])->0))
    } else if integer_literal(s) is Some {
        Some(TokenView::Operand(NumberView::Natural(integer_literal(s)->0)))
    } else if is_decimal_literal(s) {
        match decimal {
            Some(bits) => Some(TokenView::Operand(NumberView::Decimal(bits))),
            None => None,
        }
    } else if function_named(s) is Some {
        Some(TokenView::Function(function_named(s)->0))
    } else {
        Some(TokenView::Variable(s))
    }
}

/// Whether the chunk `s` is a decimal literal, and no integer literal, that
/// comes without its value.
pub open spec fn lacks_value(s: Seq<char>, decimal: Option<u64>) -> bool {
    integer_literal(s) is None && is_decimal_literal(s) && decimal is None
}

/// The view of a token that may be missing.
pub open spec fn view_of<'a>(t: Option<Token<'a>>) -> Option<TokenView> {
    match t {
        Some(token) => Some(token@),
        None => None,
    }
}

/// The name of `f` as it is printed.
pub open spec fn function_label(f: MathFunction) -> Seq<char> {
    match f {
        MathFunction::Sin => seq!['S', 'i', 'n'],
        MathFunction::Cos => seq!['C', 'o', 's'],
        MathFunction::Tan => seq!['T', 'a', 'n'],
        MathFunction::ASin => seq!['A', 'S', 'i', 'n'],
        MathFunction::ACos => seq!['A', 'C', 'o', 's'],
        MathFunction::ATan => seq!['A', 'T', 'a', 'n'],
        MathFunction::Ln => seq!['L', 'n'],
        MathFunction::Log => seq!['L', 'o', 'g'],
        MathFunction::Abs => seq!['A', 'b', 's'],
        MathFunction::Sqrt => seq!['S', 'q', 'r', 't'],
        MathFunction::Max => seq!['M', 'a', 'x'],
        MathFunction::Min => seq!['M', 'i', 'n'],
        MathFunction::Nil => seq!['N', 'o', 'n', 'e'],
    }
}

/// The text that `t` is printed as: the decimal form of an integer, the
/// symbol of an operator or a bracket, the name of a function or a variable.
/// A decimal has none here: to format it is floating-point work.
pub open spec fn token_text(t: TokenView) -> Option<Seq<char>> {
    match t {
        TokenView::Operand(NumberView::Natural(v)) => Some(integer_text(v)),
        TokenView::Operand(NumberView::Decimal(_)) => None,
        TokenView::Operator(op) => Some(seq![operator_symbol(op)]),
        TokenView::Bracket(b) => Some(seq![bracket_symbol(b)]),
        TokenView::Function(f) => Some(function_label(f)),
        TokenView::Variable(name) => Some(name),
    }
}

/// What a string that may be missing holds.
pub open spec fn text_of(s: Option<String>) -> Option<Seq<char>> {
    match s {
        Some(text) => Some(text@),
        None => None,
    }
}

/// Precedence and associativity of `op`.
pub open spec fn priority_of(op: Operator) -> (u8, Associate) {
    match op {
        Operator::Eql => (0, Associate::LeftAssociative),
        Operator::Add => (1, Associate::LeftAssociative),
        Operator::Sub => (1, Associate::LeftAssociative),
        Operator::Mul => (2, Associate::LeftAssociative),
        Operator::Div => (2, Associate::LeftAssociative),
        Operator::Pow => (3, Associate::RightAssociative),
        Operator::Une => (4, Associate::RightAssociative),
        Operator::Fac => (5, Associate::LeftAssociative),
    }
}

/// Whether an incoming `op1` sends `op2`, on top of the operator stack, to
/// the output first: `op1` is left-associative and binds no tighter than
/// `op2`, or is right-associative and binds less tightly.
pub open spec fn yields_to(op1: Operator, op2: Operator) -> bool {
    let p1 = priority_of(op1);
    let p2 = priority_of(op2);
    (p1.1 == Associate::LeftAssociative && p1.0 <= p2.0) || (p1.1
        == Associate::RightAssociative && p1.0 < p2.0)
}

impl Operator {
    /// The symbol that writes this operator.
    pub fn symbol(&self) -> (r: char)
        ensures
            r == operator_symbol(*self),
            operator_of(r) == Some(*self),
    {
        match self {
            Operator::Add => '+',
            Operator::Sub => '-',
            Operator::Mul => '*',
            Operator::Div => '/',
            Operator::Pow => '^',
            Operator::Une => '#',
            Operator::Fac => '!',
            Operator::Eql => '=',
        }
    }

    /// The symbol that writes this operator, as a string.
    pub fn text(&self) -> (r: &'static str)
        ensures
            r@ == seq![operator_symbol(*self)],
    {
        proof {
            reveal_strlit("+");
            reveal_strlit("-");
            reveal_strlit("*");
            reveal_strlit("/");
            reveal_strlit("^");
            reveal_strlit("#");
            reveal_strlit("!");
            reveal_strlit("=");
        }
        let r = match self {
            Operator::Add => "+",
            Operator::Sub => "-",
            Operator::Mul => "*",
            Operator::Div => "/",
            Operator::Pow => "^",
            Operator::Une => "#",
            Operator::Fac => "!",
            Operator::Eql => "=",
        };
        r
    }

    /// Precedence and associativity of this operator.
    pub fn priority(&self) -> (r: (u8, Associate))
        ensures
            r == priority_of(*self),
    {
        match self {
            Operator::Eql => (0, Associate::LeftAssociative),
            Operator::Add | Operator::Sub => (1, Associate::LeftAssociative),
            Operator::Mul | Operator::Div => (2, Associate::LeftAssociative),
            Operator::Pow => (3, Associate::RightAssociative),
            Operator::Une => (4, Associate::RightAssociative),
            Operator::Fac => (5, Associate::LeftAssociative),
        }
    }
}

impl MathFunction {
    /// The name of this function as it is printed.
    pub fn name(&self) -> (r: &'static str)
        ensures
            r@ == function_label(*self),
    {
        proof {
            reveal_strlit("Sin");
            reveal_strlit("Cos");
            reveal_strlit("Tan");
            reveal_strlit("ASin");
            reveal_strlit("ACos");
            reveal_strlit("ATan");
            reveal_strlit("Ln");
            reveal_strlit("Log");
            reveal_strlit("Abs");
            reveal_strlit("Sqrt");
            reveal_strlit("Max");
            reveal_strlit("Min");
            reveal_strlit("None");
        }
        let r = match self {
            MathFunction::Sin => "Sin",
            MathFunction::Cos => "Cos",
            MathFunction::Tan => "Tan",
            MathFunction::ASin => "ASin",
            MathFunction::ACos => "ACos",
            MathFunction::ATan => "ATan",
            MathFunction::Ln => "Ln",
            MathFunction::Log => "Log",
            MathFunction::Abs => "Abs",
            MathFunction::Sqrt => "Sqrt",
            MathFunction::Max => "Max",
            MathFunction::Min => "Min",
            MathFunction::Nil => "None",
        };
        r
    }
}

impl Bracket {
    /// The round symbol that writes this bracket, as a string.
    pub fn text(&self) -> (r: &'static str)
        ensures
            r@ == seq![bracket_symbol(*self)],
    {
        proof {
            reveal_strlit("(");
            reveal_strlit(")");
        }
        let r = match self {
            Bracket::Open => "(",
            Bracket::Close => ")",
        };
        r
    }

    /// The round symbol that writes this bracket.
    pub fn symbol(&self) -> (r: char)
        ensures
            r == bracket_symbol(*self),
            bracket_of(r) == Some(*self),
    {
        match self {
            Bracket::Open => '(',
            Bracket::Close => ')',
        }
    }
}

/// The lower-case form of an ASCII capital; any other character as it is.
pub(crate) fn lower(c: char) -> (r: char)
    ensures
        r == lowered(c),
{
    if 'A' <= c && c <= 'Z' {
        ((c as u8) + 32) as char
    } else {
        c
    }
}

/// Whether `t` writes `name`, whatever the case of its ASCII letters.
pub(crate) fn writes(t: &str, name: &str) -> (r: bool)
    ensures
        r == spells(t@, name@),
{
    let n = t.unicode_len();
    if n != name.unicode_len() {
        return false;
    }
    let mut i: usize = 0;
    while i < n
        invariant
            i <= n,
            n == t@.len(),
            n == name@.len(),
            forall|j: int| 0 <= j < i ==> lowered(#[trigger] t@[j]) == name@[j],
        decreases n - i,
    {
        if lower(t.get_char(i)) != name.get_char(i) {
            return false;
        }
        i += 1;
    }
    assert(t@.map_values(|c: char| lowered(c)) =~= name@);
    true
}

impl<'a> Token<'a> {
    /// The operator that `c` writes, as a token.
    pub fn from_operator(c: char) -> (r: Option<Token<'static>>)
        ensures
            match operator_of(c) {
                Some(op) => r matches Some(t) && t@ == TokenView::Operator(op),
                None => r is None,
            },
    {
        match c {
            '+' => Some(Token::Operator(Operator::Add)),
            '-' => Some(Token::Operator(Operator::Sub)),
            '*' => Some(Token::Operator(Operator::Mul)),
            '/' => Some(Token::Operator(Operator::Div)),
            '^' => Some(Token::Operator(Operator::Pow)),
            '#' => Some(Token::Operator(Operator::Une)),
            '!' => Some(Token::Operator(Operator::Fac)),
            '=' => Some(Token::Operator(Operator::Eql)),
            _ => None,
        }
    }

    /// The bracket that `c` writes, as a token.
    pub fn from_bracket(c: char) -> (r: Option<Token<'static>>)
        ensures
            match bracket_of(c) {
                Some(b) => r matches Some(t) && t@ == TokenView::Bracket(b),
                None => r is None,
            },
    {
        match c {
            '(' | '[' => Some(Token::Bracket(Bracket::Open)),
            ')' | ']' => Some(Token::Bracket(Bracket::Close)),
            _ => None,
        }
    }

    /// The function that `fun` names, in any mix of upper and lower case.
    pub fn get_some(fun: &str) -> (r: Option<MathFunction>)
        ensures
            r == function_named(fun@),
    {
        proof {
            reveal_strlit("sin");
            reveal_strlit("cos");
            reveal_strlit("tan");
            reveal_strlit("asin");
            reveal_strlit("acos");
            reveal_strlit("atan");
            reveal_strlit("ln");
            reveal_strlit("log");
            reveal_strlit("abs");
            reveal_strlit("sqrt");
            assert("sin"@ =~= written_name(MathFunction::Sin));
            assert("cos"@ =~= written_name(MathFunction::Cos));
            assert("tan"@ =~= written_name(MathFunction::Tan));
            assert("asin"@ =~= written_name(MathFunction::ASin));
            assert("acos"@ =~= written_name(MathFunction::ACos));
            assert("atan"@ =~= written_name(MathFunction::ATan));
            assert("ln"@ =~= written_name(MathFunction::Ln));
            assert("log"@ =~= written_name(MathFunction::Log));
            assert("abs"@ =~= written_name(MathFunction::Abs));
            assert("sqrt"@ =~= written_name(MathFunction::Sqrt));
        }
        if writes(fun, "sin") {
            Some(MathFunction::Sin)
        } else if writes(fun, "cos") {
            Some(MathFunction::Cos)
        } else if writes(fun, "tan") {
            Some(MathFunction::Tan)
        } else if writes(fun, "asin") {
            Some(MathFunction::ASin)
        } else if writes(fun, "acos") {
            Some(MathFunction::ACos)
        } else if writes(fun, "atan") {
            Some(MathFunction::ATan)
        } else if writes(fun, "ln") {
            Some(MathFunction::Ln)
        } else if writes(fun, "log") {
            Some(MathFunction::Log)
        } else if writes(fun, "abs") {
            Some(MathFunction::Abs)
        } else if writes(fun, "sqrt") {
            Some(MathFunction::Sqrt)
        } else {
            None
        }
    }

    /// Turns one chunk of an expression into a token. `decimal` is the
    /// binary64 value that `t` writes, by its bits; it is looked at only
    /// where `t` is a decimal literal.
    ///
    /// Every chunk that is not empty is a token, a variable name if nothing
    /// else; but a decimal literal needs its value.
    pub fn tokenize(t: &'a str, decimal: Option<u64>) -> (r: Option<Token<'a>>)
        ensures
            view_of(r) == classify(t@, decimal),
            r is None <==> t@.len() == 0 || lacks_value(t@, decimal),
            r matches Some(Token::Function(f)) ==> f != MathFunction::Nil,
    {
        let n = t.unicode_len();
        if n == 0 {
            return None;
        }
        let first = t.get_char(0);
        proof {
            if n == 1 && is_symbol(first) {
                assert(t@ =~= seq![first]);
                lemma_symbol_is_no_literal(first);
            }
        }
        if n == 1 && first != '#' {
            match Token::from_operator(first) {
                Some(token) => {
                    return Some(token);
                },
                None => {},
            }
        }
        if n == 1 {
            match Token::from_bracket(first) {
                Some(token) => {
                    return Some(token);
                },
                None => {},
            }
        }
        match Integer::parse(t) {
            Some(v) => {
                return Some(Token::Operand(Number::NaturalNumber(v)));
            },
            None => {},
        }
        if is_decimal(t) {
            return match decimal {
                Some(bits) => Some(Token::Operand(Number::DecimalNumber(bits))),
                None => None,
            };
        }
        match Token::get_some(t) {
            Some(f) => {
                return Some(Token::Function(f));
            },
            None => {},
        }
        Some(Token::Variable(t))
    }

    /// The text that this token is printed as. A decimal has none.
    pub fn to_text(&self) -> (r: Option<String>)
        ensures
            text_of(r) == token_text(self@),
    {
        match self {
            Token::Operand(n) => n.to_text(),
            Token::Operator(op) => Some(op.text().to_owned()),
            Token::Bracket(b) => Some(b.text().to_owned()),
            Token::Function(f) => Some(f.name().to_owned()),
            Token::Variable(name) => Some((*name).to_owned()),
        }
    }

    /// Precedence and associativity of an operator token.
    pub fn operator_priority(o: Token) -> (r: (u8, Associate))
        requires
            o@ is Operator,
        ensures
            r == priority_of(o@->Operator_0),
    {
        match o {
            Token::Operator(op) => op.priority(),
            _ => unreached(),
        }
    }

    /// Whether the incoming operator `op1` sends the operator `op2`, on top
    /// of the operator stack, to the output before it is pushed itself.
    pub fn compare_operator_priority(op1: Token, op2: Token) -> (r: bool)
        requires
            op1@ is Operator,
            op2@ is Operator,
        ensures
            r == yields_to(op1@->Operator_0, op2@->Operator_0),
    {
        let v_op1: (u8, Associate) = Token::operator_priority(op1);
        let v_op2: (u8, Associate) = Token::operator_priority(op2);
        (v_op1.1 == Associate::LeftAssociative && v_op1.0 <= v_op2.0) || (v_op1.1
            == Associate::RightAssociative && v_op1.0 < v_op2.0)
    }
}

} // verus!
