use num_bigint::BigInt;
use num_traits::ToPrimitive;
use yarer::environment::Environment;
use yarer::evaluation::DecimalReply;
use yarer::evaluation::evaluate;
use yarer::evaluation::DecimalTask;
use yarer::evaluation::ErrorKind;
use yarer::evaluation::Resolution;
use yarer::evaluation::ResolveError;
use yarer::integer::Integer;
use yarer::parser::ParseError;
use yarer::parser::Parser;
use yarer::rpn_resolver::RpnResolver;
use yarer::token::MathFunction;
use yarer::token::Number;
use yarer::token::Operator;
use yarer::token::Token;

/// For each chunk of `exp`, the binary64 value that it writes as a
/// floating-point literal.
fn decimals(exp: &str) -> Vec<Option<u64>> {
    Parser::split(exp)
        .iter()
        .map(|chunk| chunk.parse::<f64>().ok().map(f64::to_bits))
        .collect()
}

fn natural(v: i64) -> Number {
    Number::NaturalNumber(Integer::from_i64(v))
}

fn decimal(v: f64) -> Number {
    Number::DecimalNumber(v.to_bits())
}

/// The binary64 value of a number; an integer goes to the nearest one.
fn float(n: &Number) -> Option<f64> {
    match n {
        Number::NaturalNumber(v) => BigInt::from_signed_bytes_le(&v.to_signed_bytes_le()).to_f64(),
        Number::DecimalNumber(bits) => Some(f64::from_bits(*bits)),
    }
}

fn binary(op: Operator, left: f64, right: f64) -> Option<f64> {
    match op {
        Operator::Add => Some(left + right),
        Operator::Sub => Some(left - right),
        Operator::Mul => Some(left * right),
        Operator::Div => Some(left / right),
        Operator::Pow => Some(left.powf(right)),
        _ => None,
    }
}

fn unary(f: MathFunction, x: f64) -> Option<f64> {
    match f {
        MathFunction::Sin => Some(x.sin()),
        MathFunction::Cos => Some(x.cos()),
        MathFunction::Tan => Some(x.tan()),
        MathFunction::ASin => Some(x.asin()),
        MathFunction::ACos => Some(x.acos()),
        MathFunction::ATan => Some(x.atan()),
        MathFunction::Ln => Some(x.ln()),
        MathFunction::Log => Some(x.log10()),
        MathFunction::Abs => Some(x.abs()),
        MathFunction::Sqrt => Some(x.sqrt()),
        _ => None,
    }
}

fn pair(f: MathFunction, first: f64, second: f64) -> Option<f64> {
    match f {
        MathFunction::Max => Some(first.max(second)),
        MathFunction::Min => Some(first.min(second)),
        _ => None,
    }
}

fn value(v: Option<f64>) -> DecimalReply {
    match v {
        Some(v) => DecimalReply::Value(v.to_bits()),
        None => DecimalReply::Failed,
    }
}

/// Does the floating-point work that an evaluation asks for.
fn answer(task: &DecimalTask) -> DecimalReply {
    match task {
        DecimalTask::Binary(op, left, right) => value(
            float(left)
                .zip(float(right))
                .and_then(|(l, r)| binary(*op, l, r)),
        ),
        DecimalTask::Unary(f, x) => value(float(x).and_then(|x| unary(*f, x))),
        DecimalTask::Pair(f, first, second) => value(
            float(first)
                .zip(float(second))
                .and_then(|(a, b)| pair(*f, a, b)),
        ),
        DecimalTask::Key(bits, _) => DecimalReply::Text(f64::from_bits(*bits).to_string()),
    }
}

/// Carries an evaluation through to its value or its failure.
fn complete(
    resolver: &mut RpnResolver,
    first: Result<Resolution, ResolveError>,
) -> Result<Number, ResolveError> {
    let mut step = first;
    loop {
        match step {
            Ok(Resolution::Value(v)) => return Ok(v),
            Ok(Resolution::Pending(task)) => step = resolver.supply(answer(&task)),
            Err(e) => return Err(e),
        }
    }
}

fn run(resolver: &mut RpnResolver) -> Result<Number, ResolveError> {
    let first = resolver.resolve();
    complete(resolver, first)
}

fn parse(exp: &str) -> RpnResolver<'_> {
    RpnResolver::parse(exp, &decimals(exp)).unwrap()
}

fn resolve(exp: &str) -> Result<Number, ResolveError> {
    run(&mut parse(exp))
}

/// Whether two numbers have the same value, an integer beside a decimal
/// taken as the nearest binary64 value.
fn same(a: &Number, b: &Number) -> bool {
    match (a, b) {
        (Number::NaturalNumber(x), Number::NaturalNumber(y)) => x == y,
        _ => float(a) == float(b),
    }
}

#[test]
fn test_expressions() {
    assert_eq!(
        resolve("(3 + 4 * (2 - (3 + 1) * 5 + 3) - 6) * 2 + 4").unwrap(),
        natural(-122)
    );
    // All operands are integers, so the value is the integer 26, which is
    // the same number as the decimal 26.0.
    let r = resolve("3 * 2^3 + 6 / (2 + 1)").unwrap();
    assert!(same(&r, &decimal(26.0)));
    assert_eq!(r, natural(26));
    // Names are case-sensitive: `pi` is no constant but an unbound variable,
    // which is the integer zero.
    assert_eq!(resolve("pi * 4. + 2^pi").unwrap(), decimal(0.0 * 4.0 + 1.0));
    // A function stays on the operator stack until an enclosing bracket
    // closes or the input ends, so it takes all that follows it.
    assert_eq!(
        resolve("sin(pi / 4) + cos(pi / 4)").unwrap(),
        decimal((0.0 + 1.0f64).sin())
    );
    assert_eq!(
        resolve("tan(pi / 4) * cos(pi / 6)").unwrap(),
        decimal((0.0 * 0.0f64.cos()).tan())
    );
    assert_eq!(
        resolve("ln(e) + log10(100)"),
        Err(ResolveError::LeftoverOperands)
    );
    assert_eq!(
        resolve("cos(sin(0.5) * pi / 2)").unwrap(),
        decimal((0.5f64 * 0.0 / 2.0).sin().cos())
    );
}

#[test]
fn test_programmatic() {
    let line: &str = "x+1";
    let mut resolver: RpnResolver = parse(line);
    let first = run(&mut resolver).unwrap();
    println!("yee {:?}", first);
    assert_eq!(first, natural(1));
    resolver.set("x".to_string(), decimal(1.0));
    let second = run(&mut resolver).unwrap();
    println!("{:?}", second);
    assert_eq!(second, decimal(2.0));
}

#[test]
fn nested_brackets_and_precedence() {
    assert_eq!(
        resolve("(3 + 4 * (2 - (3 + 1) * 5 + 3) - 6) * 2 + 4"),
        Ok(natural(-122))
    );
    assert_eq!(resolve("[3 + 4] * 2"), Ok(natural(14)));
    assert_eq!(resolve("2 + 3 * 4"), Ok(natural(14)));
    assert_eq!(resolve("2 * 3 + 4"), Ok(natural(10)));
    assert_eq!(resolve("1 + 2 * 3 ^ 2"), Ok(natural(19)));
}

#[test]
fn integer_expression_has_an_integer_value() {
    assert_eq!(resolve("3 * 2^3 + 6 / (2 + 1)"), Ok(natural(26)));
}

#[test]
fn the_constant_is_upper_case_pi() {
    let pi = 3.1415f64;
    assert_eq!(
        resolve("PI * 4. + 2^PI"),
        Ok(decimal(pi * 4.0 + 2.0f64.powf(pi)))
    );
    assert_eq!(resolve("PI"), Ok(decimal(3.1415)));
    assert_eq!(resolve("pi"), Ok(natural(0)));
}

#[test]
fn equal_precedence_goes_left_to_right() {
    assert_eq!(resolve("10 - 3 - 2"), Ok(natural(5)));
    assert_eq!(resolve("10 - 3 + 2"), Ok(natural(9)));
    assert_eq!(resolve("100 / 10 / 5"), Ok(natural(2)));
    assert_eq!(resolve("100 / 10 * 5"), Ok(natural(50)));
}

#[test]
fn power_goes_right_to_left() {
    assert_eq!(resolve("2^3^2"), Ok(natural(512)));
    assert_eq!(resolve("(2^3)^2"), Ok(natural(64)));
}

#[test]
fn assignment_returns_its_right_hand_value() {
    assert_eq!(resolve("x = 5"), Ok(natural(5)));
    assert_eq!(resolve("x = 2.5"), Ok(decimal(2.5)));
}

#[test]
fn assignment_binds_the_text_of_the_left_value() {
    let mut resolver = parse("x = 5");
    assert_eq!(run(&mut resolver), Ok(natural(5)));
    let env = resolver.into_environment();
    // The left operand is the value of `x`, the integer zero, and its text
    // is the name that is bound.
    assert_eq!(env.get("0"), Some(natural(5)));
    assert_eq!(env.get("x"), Some(natural(0)));
    let exp = "x + 1";
    let mut next = RpnResolver::parse_in(exp, &decimals(exp), env).unwrap();
    assert_eq!(run(&mut next), Ok(natural(1)));
}

#[test]
fn assignment_to_a_decimal_binds_its_text() {
    let mut resolver = parse("PI = 7");
    assert_eq!(run(&mut resolver), Ok(natural(7)));
    let env = resolver.environment();
    assert_eq!(env.get("3.1415"), Some(natural(7)));
    assert_eq!(env.get("PI"), Some(decimal(3.1415)));
}

#[test]
fn a_bound_variable_is_read_by_a_later_expression() {
    let mut env = Environment::new();
    env.set("x".to_string(), natural(5));
    let exp = "x + 1";
    let mut resolver = RpnResolver::parse_in(exp, &decimals(exp), env).unwrap();
    assert_eq!(run(&mut resolver), Ok(natural(6)));
}

#[test]
fn unknown_variables_are_zero() {
    assert_eq!(resolve("y + 1"), Ok(natural(1)));
    let resolver = parse("y + 1");
    assert_eq!(resolver.environment().get("y"), Some(natural(0)));
    assert_eq!(resolver.environment().get("z"), None);
    assert_eq!(resolver.environment().lookup("z"), natural(0));
}

#[test]
fn integers_are_exact_and_unbounded() {
    assert_eq!(
        resolve("99999999999999999999 + 1"),
        Ok(Number::NaturalNumber(
            Integer::parse("100000000000000000000").unwrap()
        ))
    );
    assert_eq!(
        resolve("2^200").unwrap().to_text().unwrap(),
        "1606938044258990275541962092341162602522202993782792835301376"
    );
    assert_eq!(
        resolve("99999999999999999999 * 99999999999999999999")
            .unwrap()
            .to_text()
            .unwrap(),
        "9999999999999999999800000000000000000001"
    );
}

#[test]
fn integer_division_by_zero_is_an_arithmetic_error() {
    assert_eq!(resolve("1 / 0"), Err(ResolveError::DivisionByZero));
    assert_eq!(ResolveError::DivisionByZero.kind(), ErrorKind::Arithmetic);
    assert_eq!(resolve("1 / (2 - 2)"), Err(ResolveError::DivisionByZero));
}

#[test]
fn decimal_division_by_zero_is_infinite() {
    assert_eq!(resolve("1.0 / 0"), Ok(decimal(f64::INFINITY)));
    assert_eq!(resolve("1 / 0.0"), Ok(decimal(f64::INFINITY)));
    assert_eq!(resolve("0 - 1.0 / 0"), Ok(decimal(f64::NEG_INFINITY)));
    match resolve("0.0 / 0").unwrap() {
        Number::DecimalNumber(bits) => assert!(f64::from_bits(bits).is_nan()),
        other => panic!("{:?}", other),
    }
}

#[test]
fn integer_division_rounds_towards_zero() {
    assert_eq!(resolve("7 / 2"), Ok(natural(3)));
    assert_eq!(resolve("(0 - 7) / 2"), Ok(natural(-3)));
    assert_eq!(resolve("7 / (0 - 2)"), Ok(natural(-3)));
    assert_eq!(resolve("(0 - 7) / (0 - 2)"), Ok(natural(3)));
}

#[test]
fn a_negative_exponent_is_out_of_range() {
    assert_eq!(resolve("2 ^ (0 - 1)"), Err(ResolveError::ExponentOutOfRange));
    assert_eq!(
        resolve("2 ^ 99999999999999999999999999"),
        Err(ResolveError::ExponentOutOfRange)
    );
    assert_eq!(
        ResolveError::ExponentOutOfRange.kind(),
        ErrorKind::Arithmetic
    );
    assert_eq!(resolve("2 ^ 0"), Ok(natural(1)));
    assert_eq!(resolve("0 ^ 0"), Ok(natural(1)));
    assert_eq!(resolve("(0 - 2) ^ 3"), Ok(natural(-8)));
}

#[test]
fn a_decimal_operand_makes_a_decimal_result() {
    assert_eq!(resolve("1 + 2.5"), Ok(decimal(3.5)));
    assert_eq!(resolve("2.5 + 1"), Ok(decimal(3.5)));
    assert_eq!(resolve("2.5 * 2.0"), Ok(decimal(5.0)));
    assert_eq!(resolve("2 ^ 0.5"), Ok(decimal(2.0f64.powf(0.5))));
    assert_eq!(resolve("5 - 0.5"), Ok(decimal(4.5)));
}

#[test]
fn functions_give_decimals() {
    assert_eq!(resolve("sin(0)"), Ok(decimal(0.0)));
    assert_eq!(resolve("cos(0)"), Ok(decimal(1.0)));
    assert_eq!(resolve("tan(0)"), Ok(decimal(0.0)));
    assert_eq!(resolve("asin(1)"), Ok(decimal(1.0f64.asin())));
    assert_eq!(resolve("acos(1)"), Ok(decimal(0.0)));
    assert_eq!(resolve("atan(1)"), Ok(decimal(1.0f64.atan())));
    assert_eq!(resolve("ln(1)"), Ok(decimal(0.0)));
    assert_eq!(resolve("log(100)"), Ok(decimal(2.0)));
    assert_eq!(resolve("abs(0 - 3)"), Ok(decimal(3.0)));
    assert_eq!(resolve("sqrt(16)"), Ok(decimal(4.0)));
    assert_eq!(resolve("SQRT(16)"), Ok(decimal(4.0)));
}

#[test]
fn a_function_takes_all_that_follows_inside_its_bracket() {
    assert_eq!(resolve("(sin(0)) + 1"), Ok(decimal(1.0)));
    assert_eq!(resolve("sin(0) + 1"), Ok(decimal(1.0f64.sin())));
}

#[test]
fn unbalanced_brackets_fail_at_evaluation_only() {
    assert!(RpnResolver::parse("(1 + 2", &decimals("(1 + 2")).is_ok());
    assert_eq!(resolve("(1 + 2"), Err(ResolveError::UnbalancedBracket));
    assert_eq!(
        ResolveError::UnbalancedBracket.kind(),
        ErrorKind::Malformed
    );
    // A closing bracket without an opening one empties the operator stack.
    assert_eq!(resolve("1 + 2)"), Ok(natural(3)));
    assert_eq!(resolve("1 + 2) * 3"), Ok(natural(9)));
    assert_eq!(resolve("2 * (1 + 2))"), Ok(natural(6)));
}

#[test]
fn too_few_operands_fail() {
    assert_eq!(resolve("1 +"), Err(ResolveError::MissingOperand));
    assert_eq!(resolve("+"), Err(ResolveError::MissingOperand));
    assert_eq!(resolve("sin"), Err(ResolveError::MissingOperand));
    assert_eq!(resolve("="), Err(ResolveError::MissingOperand));
    assert_eq!(ResolveError::MissingOperand.kind(), ErrorKind::Malformed);
}

#[test]
fn an_empty_expression_has_no_result() {
    assert_eq!(resolve(""), Err(ResolveError::NoResult));
    assert_eq!(resolve("   "), Err(ResolveError::NoResult));
    assert_eq!(resolve("()"), Err(ResolveError::NoResult));
    assert_eq!(ResolveError::NoResult.kind(), ErrorKind::Malformed);
}

#[test]
fn leftover_operands_fail() {
    assert_eq!(resolve("1 2"), Err(ResolveError::LeftoverOperands));
    assert_eq!(resolve("1 2 3"), Err(ResolveError::LeftoverOperands));
    assert_eq!(
        ResolveError::LeftoverOperands.kind(),
        ErrorKind::Malformed
    );
}

#[test]
fn factorial_and_negation_are_not_evaluated() {
    assert_eq!(resolve("4 !"), Err(ResolveError::UnsupportedOperator));
    assert_eq!(resolve("3 ! 4"), Err(ResolveError::UnsupportedOperator));
    assert_eq!(
        ResolveError::UnsupportedOperator.kind(),
        ErrorKind::Malformed
    );
}

#[test]
fn a_malformed_number_is_a_variable() {
    assert_eq!(resolve("1 + 2x"), Ok(natural(1)));
    assert_eq!(resolve("1.2.3 + 4"), Ok(natural(4)));
    let resolver = parse("1 + 2x");
    assert_eq!(resolver.environment().get("2x"), Some(natural(0)));
}

#[test]
fn a_parse_fails_for_want_of_readings_only() {
    assert_eq!(
        RpnResolver::parse("1 + 2.5", &vec![None, None, None]).err(),
        Some(ParseError::Unrecognized(2))
    );
    assert_eq!(
        RpnResolver::parse("1 + 2", &vec![None, None]).err(),
        Some(ParseError::Readings)
    );
}

#[test]
fn supply_without_an_open_task_fails() {
    let mut resolver = parse("1 + 2");
    assert_eq!(
        resolver.supply(DecimalReply::Value(0)),
        Err(ResolveError::NotWaiting)
    );
    assert_eq!(ResolveError::NotWaiting.kind(), ErrorKind::Usage);
    assert_eq!(run(&mut resolver), Ok(natural(3)));
    assert_eq!(
        resolver.supply(DecimalReply::Value(0)),
        Err(ResolveError::NotWaiting)
    );
}

#[test]
fn resolve_hands_out_the_decimal_work() {
    let mut resolver = parse("1 + 2.5");
    assert_eq!(
        resolver.resolve(),
        Ok(Resolution::Pending(DecimalTask::Binary(
            Operator::Add,
            natural(1),
            decimal(2.5)
        )))
    );
    assert_eq!(
        resolver.supply(DecimalReply::Value(3.5f64.to_bits())),
        Ok(Resolution::Value(decimal(3.5)))
    );
}

#[test]
fn an_answer_that_does_not_fit_ends_the_evaluation() {
    let mut resolver = parse("1 + 2.5");
    assert!(resolver.resolve().is_ok());
    assert_eq!(
        resolver.supply(DecimalReply::Text("3.5".to_string())),
        Err(ResolveError::Conversion)
    );
    assert_eq!(ResolveError::Conversion.kind(), ErrorKind::Arithmetic);
    assert_eq!(
        resolver.supply(DecimalReply::Value(0)),
        Err(ResolveError::NotWaiting)
    );
    let mut resolver = parse("sqrt(2)");
    assert!(resolver.resolve().is_ok());
    assert_eq!(
        resolver.supply(DecimalReply::Failed),
        Err(ResolveError::Conversion)
    );
    let mut resolver = parse("PI = 1");
    assert_eq!(
        resolver.resolve(),
        Ok(Resolution::Pending(DecimalTask::Key(
            3.1415f64.to_bits(),
            natural(1)
        )))
    );
    assert_eq!(
        resolver.supply(DecimalReply::Value(0)),
        Err(ResolveError::Conversion)
    );
}

#[test]
fn resolving_again_starts_afresh() {
    let mut resolver = parse("2.0 * 3 + 1");
    assert!(matches!(resolver.resolve(), Ok(Resolution::Pending(_))));
    assert_eq!(run(&mut resolver), Ok(decimal(7.0)));
    assert_eq!(run(&mut resolver), Ok(decimal(7.0)));
}

#[test]
fn the_environment_keeps_what_a_failed_evaluation_has_bound() {
    let mut resolver = parse("(1 = 2) / 0");
    assert_eq!(run(&mut resolver), Err(ResolveError::DivisionByZero));
    assert_eq!(resolver.environment().get("1"), Some(natural(2)));
}

#[test]
fn set_overwrites_a_binding() {
    let mut resolver = parse("a * b");
    assert_eq!(run(&mut resolver), Ok(natural(0)));
    resolver.set("a".to_string(), natural(6));
    resolver.set("b".to_string(), natural(7));
    assert_eq!(run(&mut resolver), Ok(natural(42)));
    resolver.set("b".to_string(), natural(-1));
    assert_eq!(run(&mut resolver), Ok(natural(-6)));
}

#[test]
fn a_variable_named_like_the_constant_keeps_its_value() {
    let resolver = parse("PI + x");
    assert_eq!(resolver.environment().get("PI"), Some(decimal(3.1415)));
    assert_eq!(resolver.environment().get("x"), Some(natural(0)));
    assert!(resolver.environment().contains("PI"));
    assert!(!resolver.environment().contains("pi"));
}

#[test]
fn printing_and_reading_back_keeps_the_value() {
    let tokens = vec![
        Token::Operand(natural(10)),
        Token::Operator(Operator::Sub),
        Token::Operand(natural(3)),
        Token::Operator(Operator::Mul),
        Token::Operand(natural(4)),
        Token::Operator(Operator::Pow),
        Token::Operand(natural(2)),
    ];
    let (postfix, mut env) = RpnResolver::reverse_polish_notation(&tokens);
    let mut stack = vec![];
    let direct = evaluate(&postfix, &mut env, &mut stack, 0).0;
    assert_eq!(direct, Ok(Resolution::Value(natural(-38))));
    let line = Parser::print(&tokens, &vec![None; 7]).unwrap();
    assert_eq!(line, "10 - 3 * 4 ^ 2");
    assert_eq!(resolve(&line), Ok(natural(-38)));
}

/// For each token in turn, the text that it is printed as if it is a
/// decimal.
fn texts(tokens: &[Token]) -> Vec<Option<String>> {
    tokens
        .iter()
        .map(|t| match t {
            Token::Operand(Number::DecimalNumber(bits)) => Some(f64::from_bits(*bits).to_string()),
            _ => None,
        })
        .collect()
}

/// The outcome of converting and resolving `tokens`.
fn outcome(tokens: &Vec<Token>) -> Result<Number, ResolveError> {
    let (postfix, mut env) = RpnResolver::reverse_polish_notation(tokens);
    let mut stack = vec![];
    let mut from = 0;
    loop {
        let (step, next) = evaluate(&postfix, &mut env, &mut stack, from);
        match step {
            Ok(Resolution::Value(v)) => return Ok(v),
            Ok(Resolution::Pending(task)) => match answer(&task) {
                DecimalReply::Value(bits) => stack.push(Number::DecimalNumber(bits)),
                _ => return Err(ResolveError::Conversion),
            },
            Err(e) => return Err(e),
        }
        from = next;
    }
}

fn reads_back_with_its_value(tokens: Vec<Token>) {
    let direct = outcome(&tokens);
    let line = Parser::print(&tokens, &texts(&tokens)).unwrap();
    assert_eq!(Parser::parse(&line, &decimals(&line)).as_ref(), Ok(&tokens));
    assert_eq!(resolve(&line), direct, "{:?}", line);
}

#[test]
fn printing_and_reading_back_keeps_the_value_with_decimals() {
    let op = |o| Token::Operator(o);
    let nat = |v| Token::Operand(natural(v));
    let dec = |v: f64| Token::Operand(decimal(v));
    reads_back_with_its_value(vec![dec(2.5)]);
    reads_back_with_its_value(vec![nat(1), op(Operator::Add), dec(2.5)]);
    reads_back_with_its_value(vec![
        dec(0.1),
        op(Operator::Add),
        dec(0.2),
        op(Operator::Mul),
        nat(3),
        op(Operator::Pow),
        dec(1.5),
        op(Operator::Sub),
        nat(7),
        op(Operator::Div),
        dec(0.3),
    ]);
    reads_back_with_its_value(vec![
        dec(1.0e-7),
        op(Operator::Mul),
        dec(123456789.987654321),
        op(Operator::Div),
        dec(4503599627370495.5),
    ]);
    reads_back_with_its_value(vec![
        dec(f64::MIN_POSITIVE * 1.5),
        op(Operator::Add),
        dec(5e-324 * 3.0),
    ]);
    reads_back_with_its_value(vec![nat(1), op(Operator::Div), nat(0)]);
    reads_back_with_its_value(vec![dec(1.5), op(Operator::Div), nat(0)]);
    reads_back_with_its_value(vec![dec(1.5), op(Operator::Add)]);
    reads_back_with_its_value(vec![dec(1.5), dec(2.5)]);
    reads_back_with_its_value(vec![
        nat(2),
        op(Operator::Pow),
        dec(0.5),
        op(Operator::Pow),
        dec(0.5),
    ]);
}

#[test]
fn the_text_of_a_decimal_with_a_fraction_is_a_word_and_a_decimal_literal() {
    let symbols = ['+', '-', '*', '/', '^', '!', '=', '(', ')', '[', ']'];
    let mut x = 0.3f64;
    for _ in 0..2000 {
        let text = x.to_string();
        assert!(!text.chars().any(|c| c.is_whitespace() || symbols.contains(&c)));
        assert!(yarer::literal::is_decimal(&text), "{:?}", text);
        assert_eq!(Integer::parse(&text), None, "{:?}", text);
        assert_eq!(text.parse::<f64>().map(f64::to_bits), Ok(x.to_bits()));
        x = if x < 1.0e14 { x * 1.37 + 0.001 } else { x * 1.0e-160 };
        if x.fract() == 0.0 {
            x += 0.5;
        }
        assert!(x.is_finite() && x > 0.0 && x.fract() != 0.0);
    }
}
