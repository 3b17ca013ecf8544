use calc::decimal::Dec;
use calc::execute::evaluate_rpn;
use calc::op::Operator;
use calc::parse::parse_str;
use calc::rpn::shunting_yard;
use calc::token::{Function, Token};
use calc::vars::Variables;
use rust_decimal::Decimal;

fn num(n: i64) -> Token {
    Token::Number(Dec::from_int(n))
}

fn dec(mantissa: i128, scale: u32) -> Dec {
    Dec::new(mantissa, scale).unwrap()
}

fn op(c: char) -> Token {
    Token::Operator(Operator::from_symbol(c).unwrap())
}

fn fun(name: &str) -> Token {
    let chars: Vec<char> = name.chars().collect();
    Token::Function(Function::from_name(&chars).unwrap())
}

fn pi() -> Dec {
    dec(Decimal::PI.mantissa(), Decimal::PI.scale())
}

#[test]
fn test_parser1() {
    let s = "1 + 2 * 3 + (1 + 4)";
    let tokens = parse_str(s, None).unwrap();
    assert_eq!(
        tokens,
        vec![
            num(1),
            op('+'),
            num(2),
            op('*'),
            num(3),
            op('+'),
            Token::ParLeft,
            num(1),
            op('+'),
            num(4),
            Token::ParRight,
        ]
    );
}

#[test]
fn test_parser2() {
    let s = "sin ( max ( 2, 3 ) \u{f7} 3 \u{d7} \u{3c0} )";
    let tokens = parse_str(s, None).unwrap();
    assert_eq!(
        tokens,
        vec![
            fun("sin"),
            Token::ParLeft,
            fun("max"),
            Token::ParLeft,
            num(2),
            Token::Comma,
            num(3),
            Token::ParRight,
            op('/'),
            num(3),
            op('*'),
            Token::Number(pi()),
            Token::ParRight,
        ]
    );
}

#[test]
fn test_variables() {
    let s = "x + 3";
    let mut vars = Variables::new();
    vars.insert("x", Dec::from_int(1));
    let tokens = parse_str(s, Some(&vars)).unwrap();
    assert_eq!(tokens, vec![num(1), op('+'), num(3)]);
}

#[test]
fn gen_rpn1() {
    let s = "1 + 2 * 3 + 1 + 4 ^ 2";
    let tokens = parse_str(s, None).unwrap();
    let rpn = shunting_yard(tokens).unwrap();
    assert_eq!(
        rpn,
        vec![
            num(1),
            num(2),
            num(3),
            op('*'),
            op('+'),
            num(1),
            op('+'),
            num(4),
            num(2),
            op('^'),
            op('+'),
        ]
    );
}

#[test]
fn gen_rpn2() {
    let s = "1.2 - 2 * 3 * 1.2e5 ^ 4 * 2";
    let tokens = parse_str(s, None).unwrap();
    let rpn = shunting_yard(tokens).unwrap();
    assert_eq!(
        rpn,
        vec![
            Token::Number(dec(12, 1)),
            num(2),
            num(3),
            op('*'),
            Token::Number(dec(120000, 0)),
            num(4),
            op('^'),
            op('*'),
            num(2),
            op('*'),
            op('-'),
        ]
    );
}

#[test]
fn test_calculate1() {
    let s = "1 + 2 * 3 + 1 + 4 ^ 2";
    let rpn = shunting_yard(parse_str(s, None).unwrap()).unwrap();
    assert_eq!(evaluate_rpn(rpn).unwrap(), Dec::from_int(24));
}

#[test]
fn test_calculate2() {
    let s = "sin ( max ( 2, 3 ) \u{f7} 3 \u{d7} \u{3c0} )";
    let rpn = shunting_yard(parse_str(s, None).unwrap()).unwrap();
    assert_eq!(evaluate_rpn(rpn).unwrap(), Dec::from_int(0));
}

#[test]
#[should_panic]
fn test_panic1() {
    let s = "1 + 2 * 3 + 1 + 4 amogus";
    parse_str(s, None).unwrap();
}

#[test]
#[should_panic]
fn test_panic2() {
    let s = "1 2 + * 3 + )1 + 4";
    shunting_yard(parse_str(s, None).unwrap()).unwrap();
}

#[test]
#[should_panic]
fn test_panic3() {
    let s = "1 2 3 + 4";
    evaluate_rpn(shunting_yard(parse_str(s, None).unwrap()).unwrap()).unwrap();
}

#[test]
#[should_panic]
fn test_panic4() {
    let s = "1 2 3 + 4";
    evaluate_rpn(shunting_yard(parse_str(s, None).unwrap()).unwrap()).unwrap();
}
