use rustyscm::env::{standard_env, Environment, PI_BITS};
use rustyscm::eval::eval;
use rustyscm::halt::{Failure, Halt};
use rustyscm::lexer::words;
use rustyscm::numeric::{Facts, Query};
use rustyscm::operators::{add, compare, divide, subtract};
use rustyscm::parser::{Expression, Primitive};

use std::f64::consts::PI;

fn answer(facts: &mut Facts, q: Query) {
    match q {
        Query::Numeral(w) => {
            let v = w.parse::<f64>().ok().map(f64::to_bits);
            facts.add_numeral(w, v);
        }
        Query::Arithmetic(op, a, b) => {
            let (x, y) = (f64::from_bits(a), f64::from_bits(b));
            let r = match op {
                Primitive::Add => x + y,
                Primitive::Subtract => x - y,
                Primitive::Multiply => x * y,
                Primitive::Divide => x / y,
                Primitive::Power => x.powf(y),
                _ => panic!("not an arithmetic operator"),
            };
            facts.add_arithmetic(op, a, b, r.to_bits());
        }
        Query::Comparison(op, a, b) => {
            let (x, y) = (f64::from_bits(a), f64::from_bits(b));
            let r = match op {
                Primitive::Equal => x == y,
                Primitive::Greater => x > y,
                Primitive::Less => x < y,
                Primitive::GreaterEqual => x >= y,
                Primitive::LessEqual => x <= y,
                _ => panic!("not a comparison operator"),
            };
            facts.add_comparison(op, a, b, r);
        }
    }
}

fn run(program: &str, env: &mut Environment, facts: &mut Facts) -> Result<Expression, Failure> {
    loop {
        match eval(program, env, facts) {
            Ok(v) => return Ok(v),
            Err(Halt::Failed(f)) => return Err(f),
            Err(Halt::Needs(q)) => answer(facts, q),
        }
    }
}

fn eval1(program: &str) -> Result<Expression, Failure> {
    let mut env = standard_env();
    let mut facts = Facts::new();
    run(program, &mut env, &mut facts)
}

fn num(x: f64) -> Expression {
    Expression::Number(x.to_bits())
}

#[test]
fn words_split_on_parens_and_white_space() {
    let ws = words("(define\t(f x)\n  (+ x 1.5))");
    let expected: Vec<String> = vec!["(", "define", "(", "f", "x", ")", "(", "+", "x", "1.5", ")", ")"]
        .into_iter()
        .map(|s| s.to_string())
        .collect();
    assert_eq!(ws, expected);
    assert!(words("   ").is_empty());
}

#[test]
fn malformed_numeral_is_a_symbol() {
    let mut env = standard_env();
    let mut facts = Facts::new();
    assert_eq!(run("(define 1.2.3 7)", &mut env, &mut facts).unwrap(), Expression::Symbol("1.2.3".to_string()));
    assert_eq!(run("(+ 1.2.3 1)", &mut env, &mut facts).unwrap(), num(8.0));
}

#[test]
fn eval_stops_for_a_numeral_and_keeps_env() {
    let mut env = standard_env();
    let facts = Facts::new();
    match eval("(define r 10)", &mut env, &facts) {
        Err(Halt::Needs(Query::Numeral(w))) => assert_eq!(w, "define"),
        other => panic!("unexpected outcome {:?}", other),
    }
    assert!(env.get(&"r".to_string()).is_none());
}

#[test]
fn eval_stops_for_a_sum_and_keeps_env() {
    let mut env = standard_env();
    let mut facts = Facts::new();
    let outcome = loop {
        match eval("(define x (+ 2 2))", &mut env, &facts) {
            Err(Halt::Needs(Query::Numeral(w))) => answer(&mut facts, Query::Numeral(w)),
            other => break other,
        }
    };
    match outcome {
        Err(Halt::Needs(Query::Arithmetic(Primitive::Add, a, b))) => {
            assert_eq!(a, 0.0f64.to_bits());
            assert_eq!(b, 2.0f64.to_bits());
        }
        other => panic!("unexpected outcome {:?}", other),
    }
    assert!(env.get(&"x".to_string()).is_none());
}

#[test]
fn subtraction_folds_from_the_left() {
    assert_eq!(eval1("(- 20 5 3 2)").unwrap(), num(10.0));
    assert_eq!(eval1("(/ 100 5 2)").unwrap(), num(10.0));
    assert_eq!(eval1("(- 7)").unwrap(), num(7.0));
}

#[test]
fn empty_sum_and_product_are_identities() {
    assert_eq!(eval1("(+)").unwrap(), num(0.0));
    assert_eq!(eval1("(*)").unwrap(), num(1.0));
}

#[test]
fn operators_take_host_results() {
    let mut facts = Facts::new();
    let args = vec![num(9.0), num(4.0)];
    match subtract(&args, &facts) {
        Err(Halt::Needs(Query::Arithmetic(Primitive::Subtract, a, b))) => {
            assert_eq!((a, b), (9.0f64.to_bits(), 4.0f64.to_bits()));
        }
        other => panic!("unexpected outcome {:?}", other),
    }
    facts.add_arithmetic(Primitive::Subtract, 9.0f64.to_bits(), 4.0f64.to_bits(), 5.0f64.to_bits());
    assert_eq!(subtract(&args, &facts).unwrap(), num(5.0));
    facts.add_arithmetic(Primitive::Add, 0, 9.0f64.to_bits(), 9.0f64.to_bits());
    assert!(matches!(add(&args, &facts), Err(Halt::Needs(Query::Arithmetic(Primitive::Add, _, _)))));
}

#[test]
fn first_answer_counts() {
    let mut facts = Facts::new();
    facts.add_numeral("x".to_string(), None);
    facts.add_numeral("x".to_string(), Some(1));
    assert_eq!(facts.numeral_of(&"x".to_string()), Some(None));
    assert_eq!(facts.numeral_of(&"y".to_string()), None);
}

#[test]
fn if_does_not_evaluate_the_branch_not_taken() {
    assert_eq!(eval1("(if (= 1 1) 10 (undefined 1))").unwrap(), num(10.0));
    assert_eq!(eval1("(if (= 1 2) (/ 1 0) 20)").unwrap(), num(20.0));
    let mut env = standard_env();
    let mut facts = Facts::new();
    run("(define (loop n) (loop n))", &mut env, &mut facts).unwrap();
    assert_eq!(run("(if (< 1 2) 1 (loop 0))", &mut env, &mut facts).unwrap(), num(1.0));
}

#[test]
fn undefined_symbol_fails() {
    assert_eq!(eval1("(+ x 1)"), Err(Failure::UndefinedSymbol("x".to_string())));
}

#[test]
fn undefined_procedure_fails() {
    assert_eq!(eval1("(frob 1 2)"), Err(Failure::UndefinedProcedure("frob".to_string())));
    assert_eq!(eval1("(pi 1)"), Err(Failure::UndefinedProcedure("pi".to_string())));
}

#[test]
fn pi_is_stable() {
    let mut env = standard_env();
    let mut facts = Facts::new();
    for _ in 0..3 {
        assert_eq!(run("(+ pi)", &mut env, &mut facts).unwrap(), num(PI));
    }
    assert_eq!(PI_BITS, PI.to_bits());
    assert_eq!(env.get(&"pi".to_string()), Some(&num(PI)));
}

#[test]
fn inner_define_does_not_leak() {
    let mut env = standard_env();
    let mut facts = Facts::new();
    run("(define (cube x) (define (square x) (* x x)) (* x (square x)))", &mut env, &mut facts).unwrap();
    assert_eq!(run("(cube 3)", &mut env, &mut facts).unwrap(), num(27.0));
    assert_eq!(
        run("(square 3)", &mut env, &mut facts),
        Err(Failure::UndefinedProcedure("square".to_string()))
    );
}

#[test]
fn closures_capture_a_snapshot() {
    let mut env = standard_env();
    let mut facts = Facts::new();
    run("(define k 1)", &mut env, &mut facts).unwrap();
    run("(define (getk) k)", &mut env, &mut facts).unwrap();
    run("(define k 2)", &mut env, &mut facts).unwrap();
    assert_eq!(run("(getk)", &mut env, &mut facts).unwrap(), num(1.0));
}

#[test]
fn arity_mismatch_truncates() {
    let mut env = standard_env();
    let mut facts = Facts::new();
    run("(define (first a b) a)", &mut env, &mut facts).unwrap();
    assert_eq!(run("(first 4 5 6)", &mut env, &mut facts).unwrap(), num(4.0));
    assert_eq!(run("(first 4)", &mut env, &mut facts).unwrap(), num(4.0));
}

#[test]
fn parse_errors() {
    assert_eq!(eval1("x"), Err(Failure::ExpectedOpenParen));
    assert_eq!(eval1(""), Err(Failure::ExpectedOpenParen));
    assert_eq!(eval1("(+ 1 2"), Err(Failure::UnexpectedEnd));
    assert_eq!(eval1("(+ 1 2) (+ 3 4)").unwrap(), num(3.0));
}

#[test]
fn evaluation_errors() {
    assert_eq!(eval1("(1 2)"), Err(Failure::ExpectedSymbol));
    assert_eq!(eval1("()"), Err(Failure::ExpectedSymbol));
    assert_eq!(eval1("(define x)"), Err(Failure::InvalidDefine));
    assert_eq!(eval1("(define 1 2)"), Err(Failure::InvalidDefine));
    assert_eq!(eval1("(define (1 x) 2)"), Err(Failure::InvalidDefine));
    assert_eq!(eval1("(if (= 1 1) 2)"), Err(Failure::InvalidIf));
    assert_eq!(eval1("(if 1 2 3)"), Err(Failure::InvalidCondition));
    assert_eq!(eval1("(+ 1 (= 1 1))"), Err(Failure::NotANumber));
    assert_eq!(eval1("(pow 2)"), Err(Failure::WrongArity));
    assert_eq!(eval1("(< 1 2 3)"), Err(Failure::WrongArity));
    assert_eq!(eval1("(-)"), Err(Failure::WrongArity));
    assert_eq!(eval1("(/ 1 0)"), Err(Failure::DivideByZero));
    assert_eq!(eval1("(/ 1 -0)"), Err(Failure::DivideByZero));
}

#[test]
fn invalid_parameter_fails_at_call() {
    let mut env = standard_env();
    let mut facts = Facts::new();
    run("(define (f 1) 2)", &mut env, &mut facts).unwrap();
    assert_eq!(run("(f 3)", &mut env, &mut facts), Err(Failure::InvalidParameter));
}

#[test]
fn runaway_recursion_is_too_deep() {
    let mut env = standard_env();
    let mut facts = Facts::new();
    run("(define (loop n) (loop n))", &mut env, &mut facts).unwrap();
    assert_eq!(run("(loop 0)", &mut env, &mut facts), Err(Failure::TooDeep));
}

#[test]
fn divide_by_zero_is_checked_before_asking() {
    let facts = Facts::new();
    let args = vec![num(1.0), num(0.0)];
    assert_eq!(divide(&args, &facts), Err(Halt::Failed(Failure::DivideByZero)));
}

#[test]
fn define_rebinds_in_place() {
    let mut env = standard_env();
    let mut facts = Facts::new();
    run("(define r 10)", &mut env, &mut facts).unwrap();
    run("(define r (+ r 1))", &mut env, &mut facts).unwrap();
    assert_eq!(env.get(&"r".to_string()), Some(&num(11.0)));
    let before = env.contents.len();
    run("(define r 3)", &mut env, &mut facts).unwrap();
    assert_eq!(env.contents.len(), before);
}

#[test]
fn failed_evaluation_keeps_earlier_definitions() {
    let mut env = standard_env();
    let mut facts = Facts::new();
    assert_eq!(run("(if (define a 1) 2 3)", &mut env, &mut facts), Err(Failure::InvalidCondition));
    assert_eq!(env.get(&"a".to_string()), Some(&num(1.0)));
}

#[test]
fn white_space_beyond_ascii_separates_words() {
    assert_eq!(eval1("(+\u{3000}1\u{a0}2)").unwrap(), num(3.0));
}

#[test]
fn compare_by_operator_text() {
    let mut facts = Facts::new();
    let args = vec![num(2.0), num(3.0)];
    match compare(&args, ">=", &facts) {
        Err(Halt::Needs(Query::Comparison(op, a, b))) => {
            assert_eq!(op, Primitive::GreaterEqual);
            assert_eq!((a, b), (2.0f64.to_bits(), 3.0f64.to_bits()));
        }
        other => panic!("unexpected outcome {:?}", other),
    }
    facts.add_comparison(Primitive::GreaterEqual, 2.0f64.to_bits(), 3.0f64.to_bits(), false);
    assert_eq!(compare(&args, ">=", &facts).unwrap(), Expression::Bool(false));
    assert_eq!(compare(&[num(1.0)], "<", &facts), Err(Halt::Failed(Failure::WrongArity)));
}
