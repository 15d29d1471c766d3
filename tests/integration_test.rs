use rustyscm::env::{standard_env, Environment};
use rustyscm::eval::eval;
use rustyscm::halt::{Failure, Halt};
use rustyscm::lexer::{tokenize, Token};
use rustyscm::numeric::{Facts, Query};
use rustyscm::parser::{parse, Expression, Primitive};

use std::f64::consts::PI;

fn answer(facts: &mut Facts, q: Query) {
    match q {
        Query::Numeral(w) => {
            let v = w.parse::<f64>().ok().map(f64::to_bits);
            facts.add_numeral(w, v);
        }
        Query::Arithmetic(op, a, b) => {
            let (x, y) = (f64::from_bits(a), f64::from_bits(b));
            let r = match op {
                Primitive::Add => x + y,
                Primitive::Subtract => x - y,
                Primitive::Multiply => x * y,
                Primitive::Divide => x / y,
                Primitive::Power => x.powf(y),
                _ => panic!("not an arithmetic operator"),
            };
            facts.add_arithmetic(op, a, b, r.to_bits());
        }
        Query::Comparison(op, a, b) => {
            let (x, y) = (f64::from_bits(a), f64::from_bits(b));
            let r = match op {
                Primitive::Equal => x == y,
                Primitive::Greater => x > y,
                Primitive::Less => x < y,
                Primitive::GreaterEqual => x >= y,
                Primitive::LessEqual => x <= y,
                _ => panic!("not a comparison operator"),
            };
            facts.add_comparison(op, a, b, r);
        }
    }
}

fn run(program: &str, env: &mut Environment, facts: &mut Facts) -> Result<Expression, Failure> {
    loop {
        match eval(program, env, facts) {
            Ok(v) => return Ok(v),
            Err(Halt::Failed(f)) => return Err(f),
            Err(Halt::Needs(q)) => answer(facts, q),
        }
    }
}

fn tokens_of(text: &str) -> Vec<Token> {
    let mut facts = Facts::new();
    loop {
        match tokenize(text, &facts) {
            Ok(ts) => return ts,
            Err(q) => answer(&mut facts, q),
        }
    }
}

fn parsed(text: &str) -> Result<Expression, Failure> {
    let mut facts = Facts::new();
    loop {
        match parse(text, &facts) {
            Ok(e) => return Ok(e),
            Err(Halt::Failed(f)) => return Err(f),
            Err(Halt::Needs(q)) => answer(&mut facts, q),
        }
    }
}

fn num(x: f64) -> Expression {
    Expression::Number(x.to_bits())
}

fn sym(s: &str) -> Expression {
    Expression::Symbol(s.to_string())
}

#[test]
fn test_tokenize1() {
    let actual_tokens = tokens_of("(define r 10)");
    let expected_tokens = vec![
        Token::OpenParen,
        Token::Symbol("define".to_string()),
        Token::Symbol("r".to_string()),
        Token::Number(10.0f64.to_bits()),
        Token::CloseParen,
    ];
    assert_eq!(actual_tokens, expected_tokens);
}

#[test]
fn test_tokenize2() {
    let input = "
            (
                (define x 5)
                (define y 10)
                (* x y)
            )
        ";
    let actual_tokens = tokens_of(input);
    let expected_tokens = vec![
        Token::OpenParen,
        Token::OpenParen,
        Token::Symbol("define".to_string()),
        Token::Symbol("x".to_string()),
        Token::Number(5.0f64.to_bits()),
        Token::CloseParen,
        Token::OpenParen,
        Token::Symbol("define".to_string()),
        Token::Symbol("y".to_string()),
        Token::Number(10.0f64.to_bits()),
        Token::CloseParen,
        Token::OpenParen,
        Token::Symbol("*".to_string()),
        Token::Symbol("x".to_string()),
        Token::Symbol("y".to_string()),
        Token::CloseParen,
        Token::CloseParen,
    ];
    assert_eq!(actual_tokens, expected_tokens);
}

#[test]
fn test_parse1() {
    let actual_parsed_expr = parsed("(define r 10)").unwrap();
    let expected_expr = Expression::List(vec![sym("define"), sym("r"), num(10.0)]);
    assert_eq!(actual_parsed_expr, expected_expr);
}

#[test]
fn test_parse2() {
    let input = "(
                         (define x 5)
                         (define y 10)
                         (* x y)
                       )";
    let actual_parsed_expr = parsed(input).unwrap();
    let expected_expr = Expression::List(vec![
        Expression::List(vec![sym("define"), sym("x"), num(5.0)]),
        Expression::List(vec![sym("define"), sym("y"), num(10.0)]),
        Expression::List(vec![sym("*"), sym("x"), sym("y")]),
    ]);
    assert_eq!(actual_parsed_expr, expected_expr);
}

#[test]
fn test_eval_add_two_numbers() {
    let mut env = standard_env();
    let mut facts = Facts::new();
    let result = run("(+ 2 2)", &mut env, &mut facts).unwrap();
    assert_eq!(result, num(4.0));
}

#[test]
fn test_eval_add_three_numbers() {
    let mut env = standard_env();
    let mut facts = Facts::new();
    let result = run("(+ 1 2 3)", &mut env, &mut facts).unwrap();
    assert_eq!(result, num(6.0));
}

#[test]
fn test_eval_subtract_two_numbers() {
    let mut env = standard_env();
    let mut facts = Facts::new();
    let result = run("(- 10 5)", &mut env, &mut facts).unwrap();
    assert_eq!(result, num(5.0));
}

#[test]
fn test_eval_subtract_three_numbers() {
    let mut env = standard_env();
    let mut facts = Facts::new();
    let result = run("(- 10 2 3)", &mut env, &mut facts).unwrap();
    assert_eq!(result, num(5.0));
}

#[test]
fn test_eval_multiply_two_numbers() {
    let mut env = standard_env();
    let mut facts = Facts::new();
    let result = run("(* 3 2)", &mut env, &mut facts).unwrap();
    assert_eq!(result, num(6.0));
}

#[test]
fn test_eval_multiply_three_numbers() {
    let mut env = standard_env();
    let mut facts = Facts::new();
    let result = run("(* 1 2 3)", &mut env, &mut facts).unwrap();
    assert_eq!(result, num(6.0));
}

#[test]
fn test_eval_divide_two_numbers() {
    let mut env = standard_env();
    let mut facts = Facts::new();
    let result = run("(/ 24 6)", &mut env, &mut facts).unwrap();
    assert_eq!(result, num(4.0));
}

#[test]
fn test_eval_divide_three_numbers() {
    let mut env = standard_env();
    let mut facts = Facts::new();
    let result = run("(/ 24 6 2)", &mut env, &mut facts).unwrap();
    assert_eq!(result, num(2.0));
}

#[test]
fn test_eval_power() {
    let mut env = standard_env();
    let mut facts = Facts::new();
    let result = run("(pow 2 16)", &mut env, &mut facts).unwrap();
    assert_eq!(result, num(65536.0));
}

#[test]
fn test_gt_operator() {
    let mut env = standard_env();
    let mut facts = Facts::new();
    let result = run("(> 2 1)", &mut env, &mut facts).unwrap();
    assert_eq!(result, Expression::Bool(true));
}

#[test]
fn test_lt_operator() {
    let mut env = standard_env();
    let mut facts = Facts::new();
    let result = run("(< 1 2)", &mut env, &mut facts).unwrap();
    assert_eq!(result, Expression::Bool(true));
}

#[test]
fn test_gte_operator() {
    let mut env = standard_env();
    let mut facts = Facts::new();
    let result = run("(>= 2 2)", &mut env, &mut facts).unwrap();
    assert_eq!(result, Expression::Bool(true));
}

#[test]
fn test_lte_operator() {
    let mut env = standard_env();
    let mut facts = Facts::new();
    let result = run("(<= 1 2)", &mut env, &mut facts).unwrap();
    assert_eq!(result, Expression::Bool(true));
}

#[test]
fn test_define() {
    let mut env = standard_env();
    let mut facts = Facts::new();
    let result = run("(define r 10)", &mut env, &mut facts).unwrap();
    assert_eq!(result, sym("r"));
}

#[test]
fn test_equal_operator() {
    let mut env = standard_env();
    let mut facts = Facts::new();
    let result1 = run("(= 1 1)", &mut env, &mut facts).unwrap();
    assert_eq!(result1, Expression::Bool(true));
    let result2 = run("(= 1 2)", &mut env, &mut facts).unwrap();
    assert_eq!(result2, Expression::Bool(false));
}

#[test]
fn test_if_expression() {
    let mut env = standard_env();
    let mut facts = Facts::new();
    let result1 = run("(if (= 1 1) 10 20)", &mut env, &mut facts).unwrap();
    assert_eq!(result1, num(10.0));
    let result2 = run("(if (= 1 2) 10 20)", &mut env, &mut facts).unwrap();
    assert_eq!(result2, num(20.0));
}

#[test]
fn test_function_definition() {
    let mut env = standard_env();
    let mut facts = Facts::new();
    let result1 = run("(define (square x) (* x x))", &mut env, &mut facts).unwrap();
    assert_eq!(result1, sym("square"));
    let result2 = run("(square 5)", &mut env, &mut facts).unwrap();
    assert_eq!(result2, num(25.0));
}

#[test]
fn test_fibonacci() {
    let mut env = standard_env();
    let mut facts = Facts::new();
    let result1 = run("(define (fib n) (if (< n 2) 1 (+ (fib (- n 1)) (fib (- n 2)))))", &mut env, &mut facts).unwrap();
    assert_eq!(result1, sym("fib"));
    let result2 = run("(fib 10)", &mut env, &mut facts).unwrap();
    assert_eq!(result2, num(89.0));
}

#[test]
fn test_factorial() {
    let mut env = standard_env();
    let mut facts = Facts::new();
    let result1 = run("(define (fact n) (if (<= n 1) 1 (* n (fact (- n 1)))))", &mut env, &mut facts).unwrap();
    assert_eq!(result1, sym("fact"));
    let result2 = run("(fact 5)", &mut env, &mut facts).unwrap();
    assert_eq!(result2, num(120.0));
}

#[test]
fn test_area_of_a_circle() {
    let mut env = standard_env();
    let mut facts = Facts::new();
    let result1 = run("(define r 10)", &mut env, &mut facts).unwrap();
    assert_eq!(result1, sym("r"));
    let result2 = run("(* pi (* r r))", &mut env, &mut facts).unwrap();
    assert_eq!(result2, num(PI * 10.0 * 10.0));
}

#[test]
fn test_nested_functions() {
    let mut env = standard_env();
    let mut facts = Facts::new();
    let result1 = run("(define (cube x) (define (square x) (* x x)) (* x (square x)))", &mut env, &mut facts).unwrap();
    assert_eq!(result1, sym("cube"));
    let result2 = run("(cube 3)", &mut env, &mut facts).unwrap();
    assert_eq!(result2, num(27.0));
}
