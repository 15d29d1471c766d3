use vstd::prelude::*;

use crate::lexer::text_is;
use crate::halt::{produces, Failure, FailureView, Halt, HaltView};
use crate::numeric::{Facts, Query, QueryView};
use crate::parser::{datum_of, datums, Datum, Expression, Primitive};

verus! {

/// The bit pattern of 0.0.
pub const ZERO_BITS: u64 = 0;

/// The bit pattern of 1.0.
pub const ONE_BITS: u64 = 0x3FF0000000000000;

/// Whether a bit pattern is 0.0 or -0.0.
pub open spec fn is_zero(x: u64) -> bool {
    x == 0 || x == 0x8000000000000000
}

/// Folds `op` from the left over the arguments from position `i` on,
/// starting from `acc`. A divisor that is zero fails.
pub open spec fn fold_spec(op: Primitive, acc: u64, args: Seq<Datum>, i: int, facts: Facts) -> Result<u64, HaltView>
    decreases args.len() - i,
{
    if i < 0 || i >= args.len() {
        Ok(acc)
    } else {
        match args[i] {
            Datum::Number(x) => if op == Primitive::Divide && is_zero(x) {
                Err(HaltView::Failed(FailureView::DivideByZero))
            } else {
                match facts.arithmetic_result(op, acc, x) {
                    Some(y) => fold_spec(op, y, args, i + 1, facts),
                    None => Err(HaltView::Needs(QueryView::Arithmetic(op, acc, x))),
                }
            },
            _ => Err(HaltView::Failed(FailureView::NotANumber)),
        }
    }
}

pub open spec fn as_number(r: Result<u64, HaltView>) -> Result<Datum, HaltView> {
    match r {
        Ok(x) => Ok(Datum::Number(x)),
        Err(h) => Err(h),
    }
}

pub open spec fn is_comparison(op: Primitive) -> bool {
    op == Primitive::Equal || op == Primitive::Greater || op == Primitive::Less
        || op == Primitive::GreaterEqual || op == Primitive::LessEqual
}

/// What a primitive gives on evaluated arguments.
pub open spec fn apply_spec(op: Primitive, args: Seq<Datum>, facts: Facts) -> Result<Datum, HaltView> {
    match op {
        Primitive::Add => as_number(fold_spec(op, ZERO_BITS, args, 0, facts)),
        Primitive::Multiply => as_number(fold_spec(op, ONE_BITS, args, 0, facts)),
        Primitive::Subtract | Primitive::Divide => if args.len() == 0 {
            Err(HaltView::Failed(FailureView::WrongArity))
        } else {
            match args[0] {
                Datum::Number(x) => as_number(fold_spec(op, x, args, 1, facts)),
                _ => Err(HaltView::Failed(FailureView::NotANumber)),
            }
        },
        _ => if args.len() != 2 {
            Err(HaltView::Failed(FailureView::WrongArity))
        } else {
            match (args[0], args[1]) {
                (Datum::Number(a), Datum::Number(b)) => if op == Primitive::Power {
                    match facts.arithmetic_result(op, a, b) {
                        Some(y) => Ok(Datum::Number(y)),
                        None => Err(HaltView::Needs(QueryView::Arithmetic(op, a, b))),
                    }
                } else {
                    match facts.comparison_result(op, a, b) {
                        Some(t) => Ok(Datum::Bool(t)),
                        None => Err(HaltView::Needs(QueryView::Comparison(op, a, b))),
                    }
                },
                _ => Err(HaltView::Failed(FailureView::NotANumber)),
            }
        },
    }
}

/// `+` and `*` fold from the left, from their identity:
/// `(op a b c)` is `((id op a) op b) op c`.
pub proof fn fold_from_identity(op: Primitive, a: u64, b: u64, c: u64, x: u64, y: u64, z: u64, facts: Facts)
    requires
        op == Primitive::Add || op == Primitive::Multiply,
        facts.arithmetic_result(op, if op == Primitive::Add { ZERO_BITS } else { ONE_BITS }, a) == Some(x),
        facts.arithmetic_result(op, x, b) == Some(y),
        facts.arithmetic_result(op, y, c) == Some(z),
    ensures
        apply_spec(op, seq![Datum::Number(a), Datum::Number(b), Datum::Number(c)], facts) == Ok::<Datum, HaltView>(
            Datum::Number(z),
        ),
{
    let args = seq![Datum::Number(a), Datum::Number(b), Datum::Number(c)];
    let id = if op == Primitive::Add { ZERO_BITS } else { ONE_BITS };
    assert(fold_spec(op, z, args, 3, facts) == Ok::<u64, HaltView>(z));
    assert(fold_spec(op, y, args, 2, facts) == Ok::<u64, HaltView>(z));
    assert(fold_spec(op, x, args, 1, facts) == Ok::<u64, HaltView>(z));
    assert(fold_spec(op, id, args, 0, facts) == Ok::<u64, HaltView>(z));
}

/// `-` and `/` fold from the left from their first argument:
/// `(op a b c)` is `(a op b) op c`, never `a op (b op c)`.
pub proof fn fold_from_first_argument(op: Primitive, a: u64, b: u64, c: u64, x: u64, y: u64, facts: Facts)
    requires
        op == Primitive::Subtract || op == Primitive::Divide,
        op == Primitive::Divide ==> !is_zero(b) && !is_zero(c),
        facts.arithmetic_result(op, a, b) == Some(x),
        facts.arithmetic_result(op, x, c) == Some(y),
    ensures
        apply_spec(op, seq![Datum::Number(a), Datum::Number(b), Datum::Number(c)], facts) == Ok::<Datum, HaltView>(
            Datum::Number(y),
        ),
{
    let args = seq![Datum::Number(a), Datum::Number(b), Datum::Number(c)];
    assert(fold_spec(op, y, args, 3, facts) == Ok::<u64, HaltView>(y));
    assert(fold_spec(op, x, args, 2, facts) == Ok::<u64, HaltView>(y));
    assert(fold_spec(op, a, args, 1, facts) == Ok::<u64, HaltView>(y));
}

/// Dividing by zero fails; it is not handed to the host.
pub proof fn divide_by_zero_fails(a: u64, b: u64, facts: Facts)
    requires
        is_zero(b),
    ensures
        apply_spec(Primitive::Divide, seq![Datum::Number(a), Datum::Number(b)], facts)
            == Err::<Datum, HaltView>(HaltView::Failed(FailureView::DivideByZero)),
{
    let args = seq![Datum::Number(a), Datum::Number(b)];
    assert(fold_spec(Primitive::Divide, a, args, 1, facts) == Err::<u64, HaltView>(HaltView::Failed(FailureView::DivideByZero)));
}

proof fn fold_asks_missing(op: Primitive, acc: u64, args: Seq<Datum>, i: int, facts: Facts)
    ensures
        fold_spec(op, acc, args, i, facts) matches Err(HaltView::Needs(q)) ==> !facts.answers(q),
    decreases args.len() - i,
{
    if 0 <= i < args.len() {
        if let Datum::Number(x) = args[i] {
            if let Some(y) = facts.arithmetic_result(op, acc, x) {
                fold_asks_missing(op, y, args, i + 1, facts);
            }
        }
    }
}

/// Where a primitive stops for a numeric fact, the facts do not hold it.
pub proof fn apply_asks_missing(op: Primitive, args: Seq<Datum>, facts: Facts)
    ensures
        apply_spec(op, args, facts) matches Err(HaltView::Needs(q)) ==> !facts.answers(q),
{
    fold_asks_missing(op, ZERO_BITS, args, 0, facts);
    fold_asks_missing(op, ONE_BITS, args, 0, facts);
    if args.len() > 0 {
        if let Datum::Number(x) = args[0] {
            fold_asks_missing(op, x, args, 1, facts);
        }
    }
}

proof fn fold_stable(op: Primitive, acc: u64, args: Seq<Datum>, i: int, f1: Facts, f2: Facts)
    requires
        f2.extends(f1),
        !(fold_spec(op, acc, args, i, f1) matches Err(HaltView::Needs(_))),
    ensures
        fold_spec(op, acc, args, i, f2) == fold_spec(op, acc, args, i, f1),
    decreases args.len() - i,
{
    if 0 <= i < args.len() {
        if let Datum::Number(x) = args[i] {
            if !(op == Primitive::Divide && is_zero(x)) {
                if let Some(y) = f1.arithmetic_result(op, acc, x) {
                    fold_stable(op, y, args, i + 1, f1, f2);
                }
            }
        }
    }
}

/// More facts do not change what a primitive gives where it did not stop
/// for a fact.
pub proof fn apply_stable(op: Primitive, args: Seq<Datum>, f1: Facts, f2: Facts)
    requires
        f2.extends(f1),
        !(apply_spec(op, args, f1) matches Err(HaltView::Needs(_))),
    ensures
        apply_spec(op, args, f2) == apply_spec(op, args, f1),
{
    if op == Primitive::Add {
        fold_stable(op, ZERO_BITS, args, 0, f1, f2);
    } else if op == Primitive::Multiply {
        fold_stable(op, ONE_BITS, args, 0, f1, f2);
    } else if op == Primitive::Subtract || op == Primitive::Divide {
        if args.len() > 0 {
            if let Datum::Number(x) = args[0] {
                fold_stable(op, x, args, 1, f1, f2);
            }
        }
    }
}

fn fold(op: Primitive, seed: u64, args: &[Expression], start: usize, facts: &Facts) -> (r: Result<u64, Halt>)
    requires
        start <= args@.len(),
    ensures
        match r {
            Ok(x) => fold_spec(op, seed, datums(args@), start as int, *facts) == Ok::<u64, HaltView>(x),
            Err(h) => fold_spec(op, seed, datums(args@), start as int, *facts) == Err::<u64, HaltView>(h@),
        },
{
    let ghost d = datums(args@);
    let mut acc = seed;
    let mut i = start;
    while i < args.len()
        invariant
            d == datums(args@),
            start <= i <= args@.len(),
            fold_spec(op, seed, d, start as int, *facts) == fold_spec(op, acc, d, i as int, *facts),
        decreases args@.len() - i,
    {
        match &args[i] {
            Expression::Number(x) => {
                if op == Primitive::Divide && (*x == 0 || *x == 0x8000000000000000) {
                    return Err(Halt::Failed(Failure::DivideByZero));
                }
                match facts.arithmetic_of(op, acc, *x) {
                    Some(y) => {
                        acc = y;
                    },
                    None => {
                        return Err(Halt::Needs(Query::Arithmetic(op, acc, *x)));
                    },
                }
            },
            _ => {
                return Err(Halt::Failed(Failure::NotANumber));
            },
        }
        i += 1;
    }
    Ok(acc)
}

fn number_of(r: Result<u64, Halt>) -> (e: Result<Expression, Halt>)
    ensures
        match r {
            Ok(x) => e matches Ok(Expression::Number(y)) && y == x,
            Err(h) => e == Err::<Expression, Halt>(h),
        },
{
    match r {
        Ok(x) => Ok(Expression::Number(x)),
        Err(h) => Err(h),
    }
}

/// The sum of the arguments, folded from the left from 0.
pub fn add(args: &[Expression], facts: &Facts) -> (r: Result<Expression, Halt>)
    ensures
        produces(r, apply_spec(Primitive::Add, datums(args@), *facts)),
{
    number_of(fold(Primitive::Add, ZERO_BITS, args, 0, facts))
}

/// The product of the arguments, folded from the left from 1.
pub fn multiply(args: &[Expression], facts: &Facts) -> (r: Result<Expression, Halt>)
    ensures
        produces(r, apply_spec(Primitive::Multiply, datums(args@), *facts)),
{
    number_of(fold(Primitive::Multiply, ONE_BITS, args, 0, facts))
}

fn fold_from_first(op: Primitive, args: &[Expression], facts: &Facts) -> (r: Result<Expression, Halt>)
    requires
        op == Primitive::Subtract || op == Primitive::Divide,
    ensures
        produces(r, apply_spec(op, datums(args@), *facts)),
{
    if args.len() == 0 {
        return Err(Halt::Failed(Failure::WrongArity));
    }
    match &args[0] {
        Expression::Number(x) => number_of(fold(op, *x, args, 1, facts)),
        _ => Err(Halt::Failed(Failure::NotANumber)),
    }
}

/// The first argument minus each of the others, from the left.
pub fn subtract(args: &[Expression], facts: &Facts) -> (r: Result<Expression, Halt>)
    ensures
        produces(r, apply_spec(Primitive::Subtract, datums(args@), *facts)),
{
    fold_from_first(Primitive::Subtract, args, facts)
}

/// The first argument divided by each of the others, from the left.
pub fn divide(args: &[Expression], facts: &Facts) -> (r: Result<Expression, Halt>)
    ensures
        produces(r, apply_spec(Primitive::Divide, datums(args@), *facts)),
{
    fold_from_first(Primitive::Divide, args, facts)
}

fn two_numbers(args: &[Expression]) -> (r: Result<(u64, u64), Halt>)
    ensures
        args@.len() != 2 ==> r == Err::<(u64, u64), Halt>(Halt::Failed(Failure::WrongArity)),
        args@.len() == 2 ==> match (datum_of(args@[0]), datum_of(args@[1])) {
            (Datum::Number(a), Datum::Number(b)) => r == Ok::<(u64, u64), Halt>((a, b)),
            _ => r == Err::<(u64, u64), Halt>(Halt::Failed(Failure::NotANumber)),
        },
{
    if args.len() != 2 {
        return Err(Halt::Failed(Failure::WrongArity));
    }
    match (&args[0], &args[1]) {
        (Expression::Number(a), Expression::Number(b)) => Ok((*a, *b)),
        _ => Err(Halt::Failed(Failure::NotANumber)),
    }
}

/// The first argument raised to the second.
pub fn power(args: &[Expression], facts: &Facts) -> (r: Result<Expression, Halt>)
    ensures
        produces(r, apply_spec(Primitive::Power, datums(args@), *facts)),
{
    match two_numbers(args) {
        Ok((a, b)) => match facts.arithmetic_of(Primitive::Power, a, b) {
            Some(y) => Ok(Expression::Number(y)),
            None => Err(Halt::Needs(Query::Arithmetic(Primitive::Power, a, b))),
        },
        Err(h) => Err(h),
    }
}

/// The comparison operator that a text names.
pub open spec fn comparison_named(op: Seq<char>) -> Option<Primitive> {
    if op == "="@ {
        Some(Primitive::Equal)
    } else if op == ">"@ {
        Some(Primitive::Greater)
    } else if op == "<"@ {
        Some(Primitive::Less)
    } else if op == ">="@ {
        Some(Primitive::GreaterEqual)
    } else if op == "<="@ {
        Some(Primitive::LessEqual)
    } else {
        None
    }
}

fn comparison_of(op: &str) -> (r: Option<Primitive>)
    ensures
        r == comparison_named(op@),
{
    if text_is(op, "=") {
        Some(Primitive::Equal)
    } else if text_is(op, ">") {
        Some(Primitive::Greater)
    } else if text_is(op, "<") {
        Some(Primitive::Less)
    } else if text_is(op, ">=") {
        Some(Primitive::GreaterEqual)
    } else if text_is(op, "<=") {
        Some(Primitive::LessEqual)
    } else {
        None
    }
}

/// Compares two numbers with the operator that `op` names: one of `=`, `>`,
/// `<`, `>=`, `<=`.
pub fn compare(args: &[Expression], op: &str, facts: &Facts) -> (r: Result<Expression, Halt>)
    requires
        comparison_named(op@) is Some,
    ensures
        produces(r, apply_spec(comparison_named(op@)->0, datums(args@), *facts)),
{
    let p = comparison_of(op).unwrap();
    compare_with(args, p, facts)
}

fn compare_with(args: &[Expression], op: Primitive, facts: &Facts) -> (r: Result<Expression, Halt>)
    requires
        is_comparison(op),
    ensures
        produces(r, apply_spec(op, datums(args@), *facts)),
{
    match two_numbers(args) {
        Ok((a, b)) => match facts.comparison_of(op, a, b) {
            Some(t) => Ok(Expression::Bool(t)),
            None => Err(Halt::Needs(Query::Comparison(op, a, b))),
        },
        Err(h) => Err(h),
    }
}

/// Applies a primitive to evaluated arguments.
pub fn apply(op: Primitive, args: &[Expression], facts: &Facts) -> (r: Result<Expression, Halt>)
    ensures
        produces(r, apply_spec(op, datums(args@), *facts)),
{
    match op {
        Primitive::Add => crate::operators::add(args, facts),
        Primitive::Subtract => subtract(args, facts),
        Primitive::Multiply => multiply(args, facts),
        Primitive::Divide => divide(args, facts),
        Primitive::Power => power(args, facts),
        _ => compare_with(args, op, facts),
    }
}

} // verus!
