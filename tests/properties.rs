use calc::decimal::Dec;
use calc::execute::evaluate_rpn;
use calc::op::{BinOp, Operator};
use calc::parse::parse_str;
use calc::rpn::shunting_yard;
use calc::token::{Function, Token};
use calc::vars::Variables;
use calc::{compute, Error};
use rust_decimal::Decimal;

fn value(s: &str) -> Dec {
    compute(s, None).unwrap()
}

fn error(s: &str) -> Error {
    compute(s, None).unwrap_err()
}

fn dec(mantissa: i128, scale: u32) -> Dec {
    Dec::new(mantissa, scale).unwrap()
}

#[test]
fn arithmetic_follows_precedence() {
    assert_eq!(value("1 + 2 * 3"), Dec::from_int(7));
    assert_eq!(value("(1 + 2) * 3"), Dec::from_int(9));
    assert_eq!(value("10 - 4 - 3"), Dec::from_int(3));
    assert_eq!(value("2 * (3 + 4) - 6 / 3"), Dec::from_int(12));
    assert_eq!(value("-3 + 5"), Dec::from_int(2));
    assert_eq!(value("2 * -3"), Dec::from_int(-6));
}

#[test]
fn decimal_sums_are_exact() {
    assert_eq!(value("0.1 + 0.2"), dec(3, 1));
    assert_eq!(value("1.5 * 1.5"), dec(225, 2));
    assert_eq!(value("1 / 4"), dec(25, 2));
}

#[test]
fn power_groups_to_the_right() {
    assert_eq!(value("2^3^2"), Dec::from_int(512));
    assert_ne!(value("2^3^2"), Dec::from_int(64));
    assert_eq!(value("(2^3)^2"), Dec::from_int(64));
}

#[test]
fn division_groups_to_the_left() {
    assert_eq!(value("8/4/2"), Dec::from_int(1));
    assert_ne!(value("8/4/2"), Dec::from_int(4));
}

#[test]
fn postfix_of_mixed_expression() {
    let infix = parse_str("1+2*3+(1+4)", None).unwrap();
    let postfix = shunting_yard(infix).unwrap();
    let plus = Token::Operator(Operator::from_symbol('+').unwrap());
    let times = Token::Operator(Operator::from_symbol('*').unwrap());
    let n = |k: i64| Token::Number(Dec::from_int(k));
    assert_eq!(postfix, vec![n(1), n(2), n(3), times, plus, n(1), n(4), plus, plus]);
    let kinds: Vec<Option<BinOp>> = postfix
        .iter()
        .map(|t| match t {
            Token::Operator(o) => Some(o.op),
            _ => None,
        })
        .collect();
    assert_eq!(
        kinds,
        vec![None, None, None, Some(BinOp::Mul), Some(BinOp::Add), None, None, Some(BinOp::Add), Some(BinOp::Add)]
    );
    assert_eq!(evaluate_rpn(postfix).unwrap(), Dec::from_int(12));
}

#[test]
fn unbalanced_parentheses() {
    let open = shunting_yard(parse_str("(1+2", None).unwrap());
    assert_eq!(open, Err(Error::UnbalancedParens));
    let close = shunting_yard(parse_str("1+2)", None).unwrap());
    assert_eq!(close, Err(Error::UnbalancedParens));
}

#[test]
fn operator_without_operands() {
    let add = Token::Operator(Operator::from_symbol('+').unwrap());
    let r = evaluate_rpn(vec![Token::Number(Dec::from_int(1)), add]);
    assert_eq!(r, Err(Error::NotEnoughArgs));
}

#[test]
fn function_without_operands() {
    let sin: Vec<char> = "sin".chars().collect();
    let max: Vec<char> = "max".chars().collect();
    let r = evaluate_rpn(vec![Token::Function(Function::from_name(&sin).unwrap())]);
    assert_eq!(r, Err(Error::NotEnoughArgs));
    let r = evaluate_rpn(vec![
        Token::Number(Dec::from_int(1)),
        Token::Function(Function::from_name(&max).unwrap()),
    ]);
    assert_eq!(r, Err(Error::NotEnoughArgs));
}

#[test]
fn dangling_values() {
    let r = evaluate_rpn(vec![Token::Number(Dec::from_int(1)), Token::Number(Dec::from_int(2))]);
    assert_eq!(r, Err(Error::UnfinishedExpr));
    assert_eq!(evaluate_rpn(vec![]), Err(Error::UnfinishedExpr));
}

#[test]
fn stray_token_in_postfix() {
    let r = evaluate_rpn(vec![Token::Number(Dec::from_int(1)), Token::Comma]);
    assert_eq!(r, Err(Error::UnexpectedToken));
}

#[test]
fn variables_are_substituted() {
    let mut vars = Variables::new();
    vars.insert("x", Dec::from_int(1));
    assert_eq!(compute("x+3", Some(&vars)).unwrap(), Dec::from_int(4));
    assert_eq!(compute("y+3", Some(&vars)), Err(Error::InvalidToken));
    vars.insert("x", Dec::from_int(10));
    assert_eq!(compute("x+3", Some(&vars)).unwrap(), Dec::from_int(13));
}

#[test]
fn constants_resolve() {
    let pi = dec(Decimal::PI.mantissa(), Decimal::PI.scale());
    assert_eq!(value("pi"), pi);
    assert_eq!(value("\u{3c0}"), pi);
    assert_eq!(value("e"), dec(Decimal::E.mantissa(), Decimal::E.scale()));
    let s = value("sin(pi)");
    let size = s.max(&Dec::from_int(0)).checked_sub(&s.min(&Dec::from_int(0))).unwrap();
    assert_eq!(size.min(&dec(1, 20)), size);
}

#[test]
fn two_argument_functions() {
    assert_eq!(value("max(2,3)"), Dec::from_int(3));
    assert_eq!(value("min(2,3)"), Dec::from_int(2));
    assert_eq!(value("max(-2,-3)"), Dec::from_int(-2));
}

#[test]
fn one_argument_functions() {
    assert_eq!(value("cos(0)"), Dec::from_int(1));
    assert_eq!(value("tan(0)"), Dec::from_int(0));
    assert_eq!(value("sin(0)"), Dec::from_int(0));
    assert_eq!(error("ctan(0)"), Error::DivisionByZero);
    let t = value("tan(1)");
    assert_eq!(t.max(&dec(15574, 4)), t);
    assert_eq!(t.min(&dec(15575, 4)), t);
    let c = value("ctan(1)");
    assert_eq!(c.max(&dec(6420, 4)), c);
    assert_eq!(c.min(&dec(6421, 4)), c);
}

#[test]
fn unknown_name_without_mapping() {
    assert_eq!(error("foo"), Error::InvalidToken);
    let mut vars = Variables::new();
    vars.insert("foo", Dec::from_int(5));
    assert_eq!(compute("foo", Some(&vars)).unwrap(), Dec::from_int(5));
    assert_eq!(error("foo"), Error::InvalidToken);
}

#[test]
fn division_by_zero() {
    assert_eq!(error("1/0"), Error::DivisionByZero);
    assert_eq!(error("1/(2-2)"), Error::DivisionByZero);
}

#[test]
fn overflow_is_reported() {
    assert_eq!(error("79228162514264337593543950335 + 1"), Error::Overflow);
    assert_eq!(error("79228162514264337593543950335 * 10"), Error::Overflow);
}

#[test]
fn malformed_numerals() {
    assert_eq!(error("2e"), Error::NumberParseError);
    assert_eq!(error("2e*3"), Error::NumberParseError);
    assert_eq!(error("1.2.3"), Error::NumberParseError);
    assert_eq!(error("-(1)"), Error::NumberParseError);
}

#[test]
fn scientific_numerals() {
    assert_eq!(value("1.5e3"), Dec::from_int(1500));
    assert_eq!(value("25e-2"), dec(25, 2));
}

#[test]
fn operator_table() {
    let times = Operator::from_symbol('\u{d7}').unwrap();
    assert_eq!(times.op, BinOp::Mul);
    assert_eq!(times.precedence, 3);
    assert_eq!(Operator::from_symbol('^').unwrap().precedence, 4);
    assert_eq!(Operator::from_symbol('-').unwrap().precedence, 2);
    assert!(Operator::from_symbol('%').is_none());
    assert!(Operator::from_symbol('+').unwrap() < Operator::from_symbol('/').unwrap());
    assert!(Operator::from_symbol('+').unwrap() == Operator::from_symbol('-').unwrap());
}

#[test]
fn numbers_compare_by_value() {
    assert_eq!(dec(10, 1), Dec::from_int(1));
    assert_ne!(dec(11, 1), Dec::from_int(1));
    assert!(Dec::new(1, 29).is_none());
}

#[test]
fn error_messages() {
    assert_eq!(Error::UnbalancedParens.message(), "Unbalanced parentheses");
    assert_eq!(Error::NotEnoughArgs.message(), "Not enough arguments");
}
