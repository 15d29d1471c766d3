use vstd::prelude::*;

use crate::env::Environment;
use crate::lexer::{tokenize, Token};
use crate::halt::{Failure, FailureView, Halt, HaltView};
use crate::lexer::words_of;
use crate::numeric::Facts;

verus! {

broadcast use vstd::std_specs::vec::axiom_vec_index_decreases;

/// The built-in procedures of the operator library.
#[derive(Clone, Copy, Debug, PartialEq, Eq, Structural)]
pub enum Primitive {
    Add,
    Subtract,
    Multiply,
    Divide,
    Power,
    Equal,
    Greater,
    Less,
    GreaterEqual,
    LessEqual,
}

/// The one value type of the language: source structure and runtime values.
#[derive(Debug)]
pub enum Expression {
    Bool(bool),
    /// An IEEE-754 binary64 number, held as its bit pattern.
    Number(u64),
    Symbol(String),
    List(Vec<Expression>),
    Func(Primitive),
    Function(Procedure),
}

/// A procedure defined in the language, with the environment it captured.
#[derive(Debug)]
pub struct Procedure {
    pub params: Vec<Expression>,
    pub body: Vec<Expression>,
    pub env: Environment,
}

/// The mathematical model of an `Expression`.
pub enum Datum {
    Bool(bool),
    Number(u64),
    Symbol(Seq<char>),
    List(Seq<Datum>),
    Primitive(Primitive),
    /// Parameters, body and the captured bindings, in insertion order.
    Closure(Seq<Datum>, Seq<Datum>, Seq<(Seq<char>, Datum)>),
}

pub open spec fn datum_of(e: Expression) -> Datum
    decreases e,
{
    match e {
        Expression::Bool(b) => Datum::Bool(b),
        Expression::Number(n) => Datum::Number(n),
        Expression::Symbol(s) => Datum::Symbol(s@),
        Expression::List(v) => Datum::List(
            Seq::new(v.len() as nat, |i: int| if 0 <= i < v.len() { datum_of(v[i]) } else { Datum::Bool(false) }),
        ),
        Expression::Func(p) => Datum::Primitive(p),
        Expression::Function(p) => Datum::Closure(
            Seq::new(p.params.len() as nat, |i: int| if 0 <= i < p.params.len() { datum_of(p.params[i]) } else { Datum::Bool(false) }),
            Seq::new(p.body.len() as nat, |i: int| if 0 <= i < p.body.len() { datum_of(p.body[i]) } else { Datum::Bool(false) }),
            Seq::new(p.env.contents.len() as nat, |i: int| if 0 <= i < p.env.contents.len() {
                (p.env.contents[i].0@, datum_of(p.env.contents[i].1))
            } else {
                (Seq::empty(), Datum::Bool(false))
            }),
        ),
    }
}


pub open spec fn datums(v: Seq<Expression>) -> Seq<Datum> {
    v.map_values(|e: Expression| datum_of(e))
}

pub open spec fn bindings(v: Seq<(String, Expression)>) -> Seq<(Seq<char>, Datum)> {
    v.map_values(|b: (String, Expression)| (b.0@, datum_of(b.1)))
}

pub proof fn lemma_datum_of_list(v: Vec<Expression>)
    ensures
        datum_of(Expression::List(v)) == Datum::List(datums(v@)),
{
    let d = datum_of(Expression::List(v));
    assert(d->List_0 =~= datums(v@));
}

pub proof fn lemma_datum_of_function(p: Procedure)
    ensures
        datum_of(Expression::Function(p)) == Datum::Closure(datums(p.params@), datums(p.body@), bindings(p.env.contents@)),
{
    let d = datum_of(Expression::Function(p));
    assert(d->Closure_0 =~= datums(p.params@));
    assert(d->Closure_1 =~= datums(p.body@));
    assert(d->Closure_2 =~= bindings(p.env.contents@));
}

/// A copy of an expression, closures and their environments included.
pub fn copy_expr(e: &Expression) -> (r: Expression)
    ensures
        datum_of(r) == datum_of(*e),
    decreases e,
{
    match e {
        Expression::Bool(b) => Expression::Bool(*b),
        Expression::Number(n) => Expression::Number(*n),
        Expression::Symbol(s) => Expression::Symbol(s.clone()),
        Expression::List(v) => {
            let c = copy_exprs(v);
            proof {
                lemma_datum_of_list(*v);
                lemma_datum_of_list(c);
            }
            Expression::List(c)
        },
        Expression::Func(p) => Expression::Func(*p),
        Expression::Function(p) => {
            let params = copy_exprs(&p.params);
            let body = copy_exprs(&p.body);
            let contents = copy_bindings(&p.env.contents);
            let q = Procedure { params, body, env: Environment { contents } };
            proof {
                lemma_datum_of_function(*p);
                lemma_datum_of_function(q);
            }
            Expression::Function(q)
        },
    }
}

pub fn copy_exprs(v: &Vec<Expression>) -> (r: Vec<Expression>)
    ensures
        datums(r@) == datums(v@),
    decreases v,
{
    let mut out: Vec<Expression> = Vec::new();
    let mut i: usize = 0;
    while i < v.len()
        invariant
            i <= v@.len(),
            datums(out@) =~= datums(v@.subrange(0, i as int)),
        decreases v@.len() - i,
    {
        assert(decreases_to!(v => v[i as int]));
        let c = copy_expr(&v[i]);
        let ghost before = out@;
        out.push(c);
        assert(out@ == before.push(c));
        assert(datums(out@) =~= datums(before).push(datum_of(c)));
        assert(datums(out@) =~= datums(v@.subrange(0, i + 1)));
        i += 1;
    }
    assert(v@.subrange(0, v@.len() as int) =~= v@);
    out
}

pub fn copy_bindings(v: &Vec<(String, Expression)>) -> (r: Vec<(String, Expression)>)
    ensures
        bindings(r@) == bindings(v@),
    decreases v,
{
    let mut out: Vec<(String, Expression)> = Vec::new();
    let mut i: usize = 0;
    while i < v.len()
        invariant
            i <= v@.len(),
            bindings(out@) =~= bindings(v@.subrange(0, i as int)),
        decreases v@.len() - i,
    {
        assert(decreases_to!(v => v[i as int]));
        let c = copy_expr(&v[i].1);
        let k = v[i].0.clone();
        let ghost before = out@;
        out.push((k, c));
        assert(out@ == before.push((k, c)));
        assert(bindings(out@) =~= bindings(before).push((k@, datum_of(c))));
        assert(bindings(out@) =~= bindings(v@.subrange(0, i + 1)));
        i += 1;
    }
    assert(v@.subrange(0, v@.len() as int) =~= v@);
    out
}

/// Whether two expressions have the same model.
pub fn expr_eq(a: &Expression, b: &Expression) -> (r: bool)
    ensures
        r == (datum_of(*a) == datum_of(*b)),
    decreases a,
{
    match (a, b) {
        (Expression::Bool(x), Expression::Bool(y)) => *x == *y,
        (Expression::Number(x), Expression::Number(y)) => *x == *y,
        (Expression::Symbol(x), Expression::Symbol(y)) => *x == *y,
        (Expression::List(x), Expression::List(y)) => {
            proof {
                lemma_datum_of_list(*x);
                lemma_datum_of_list(*y);
            }
            exprs_eq(x, y)
        },
        (Expression::Func(x), Expression::Func(y)) => *x == *y,
        (Expression::Function(x), Expression::Function(y)) => {
            proof {
                lemma_datum_of_function(*x);
                lemma_datum_of_function(*y);
            }
            exprs_eq(&x.params, &y.params) && exprs_eq(&x.body, &y.body) && bindings_eq(&x.env.contents, &y.env.contents)
        },
        _ => false,
    }
}

pub fn exprs_eq(a: &Vec<Expression>, b: &Vec<Expression>) -> (r: bool)
    ensures
        r == (datums(a@) == datums(b@)),
    decreases a,
{
    if a.len() != b.len() {
        assert(datums(a@).len() != datums(b@).len());
        return false;
    }
    let mut i: usize = 0;
    while i < a.len()
        invariant
            a@.len() == b@.len(),
            i <= a@.len(),
            forall|k: int| 0 <= k < i ==> datum_of(#[trigger] a@[k]) == datum_of(b@[k]),
        decreases a@.len() - i,
    {
        assert(decreases_to!(a => a[i as int]));
        if !expr_eq(&a[i], &b[i]) {
            assert(datums(a@)[i as int] != datums(b@)[i as int]);
            return false;
        }
        i += 1;
    }
    assert(datums(a@) =~= datums(b@));
    true
}

pub fn bindings_eq(a: &Vec<(String, Expression)>, b: &Vec<(String, Expression)>) -> (r: bool)
    ensures
        r == (bindings(a@) == bindings(b@)),
    decreases a,
{
    if a.len() != b.len() {
        assert(bindings(a@).len() != bindings(b@).len());
        return false;
    }
    let mut i: usize = 0;
    while i < a.len()
        invariant
            a@.len() == b@.len(),
            i <= a@.len(),
            forall|k: int| 0 <= k < i ==> bindings(a@)[k] == #[trigger] bindings(b@)[k],
        decreases a@.len() - i,
    {
        assert(decreases_to!(a => a[i as int]));
        if !(a[i].0 == b[i].0) {
            assert(bindings(a@)[i as int] != bindings(b@)[i as int]);
            return false;
        }
        if !expr_eq(&a[i].1, &b[i].1) {
            assert(bindings(a@)[i as int] != bindings(b@)[i as int]);
            return false;
        }
        i += 1;
    }
    assert(bindings(a@) =~= bindings(b@));
    true
}

/// The list that starts at position `i` of `ts`, and the position after it.
pub open spec fn parse_list_spec(ts: Seq<Token>, i: int) -> Result<(Datum, int), FailureView>
    decreases ts.len() - i, 0int,
{
    if 0 <= i < ts.len() && ts[i] is OpenParen {
        parse_items_spec(ts, i + 1, Seq::empty())
    } else {
        Err(FailureView::ExpectedOpenParen)
    }
}

/// The rest of a list whose items before position `i` are `acc`.
pub open spec fn parse_items_spec(ts: Seq<Token>, i: int, acc: Seq<Datum>) -> Result<(Datum, int), FailureView>
    decreases ts.len() - i, 1int,
{
    if i < 0 || i >= ts.len() {
        Err(FailureView::UnexpectedEnd)
    } else {
        match ts[i] {
            Token::Number(b) => parse_items_spec(ts, i + 1, acc.push(Datum::Number(b))),
            Token::Symbol(s) => parse_items_spec(ts, i + 1, acc.push(Datum::Symbol(s@))),
            Token::CloseParen => Ok((Datum::List(acc), i + 1)),
            Token::OpenParen => match parse_list_spec(ts, i) {
                Ok((d, j)) => if i < j <= ts.len() {
                    parse_items_spec(ts, j, acc.push(d))
                } else {
                    Err(FailureView::UnexpectedEnd)
                },
                Err(e) => Err(e),
            },
        }
    }
}

pub open spec fn parsed_as(r: Result<(Expression, usize), Failure>, s: Result<(Datum, int), FailureView>) -> bool {
    match r {
        Ok((e, j)) => s == Ok::<(Datum, int), FailureView>((datum_of(e), j as int)),
        Err(f) => s == Err::<(Datum, int), FailureView>(f@),
    }
}

fn parse_list(tokens: &Vec<Token>, i: usize) -> (r: Result<(Expression, usize), Failure>)
    requires
        i <= tokens@.len(),
    ensures
        parsed_as(r, parse_list_spec(tokens@, i as int)),
        r matches Ok((_, j)) ==> i < j <= tokens@.len(),
    decreases tokens@.len() - i, 0int,
{
    if i < tokens.len() {
        if let Token::OpenParen = tokens[i] {
            return parse_items(tokens, i + 1);
        }
    }
    Err(Failure::ExpectedOpenParen)
}

fn parse_items(tokens: &Vec<Token>, i0: usize) -> (r: Result<(Expression, usize), Failure>)
    requires
        i0 <= tokens@.len(),
    ensures
        parsed_as(r, parse_items_spec(tokens@, i0 as int, Seq::empty())),
        r matches Ok((_, j)) ==> i0 < j <= tokens@.len(),
    decreases tokens@.len() - i0, 1int,
{
    let ghost ts = tokens@;
    let mut list: Vec<Expression> = Vec::new();
    let mut i: usize = i0;
    assert(datums(list@) =~= Seq::<Datum>::empty());
    loop
        invariant
            ts == tokens@,
            i0 <= i <= ts.len(),
            parse_items_spec(ts, i0 as int, Seq::empty()) == parse_items_spec(ts, i as int, datums(list@)),
        decreases ts.len() - i,
    {
        if i >= tokens.len() {
            return Err(Failure::UnexpectedEnd);
        }
        let ghost before = list@;
        match &tokens[i] {
            Token::Number(b) => {
                list.push(Expression::Number(*b));
                assert(datums(list@) =~= datums(before).push(Datum::Number(*b)));
                i += 1;
            },
            Token::Symbol(s) => {
                list.push(Expression::Symbol(s.clone()));
                assert(datums(list@) =~= datums(before).push(Datum::Symbol(s@)));
                i += 1;
            },
            Token::CloseParen => {
                proof {
                    lemma_datum_of_list(list);
                }
                return Ok((Expression::List(list), i + 1));
            },
            Token::OpenParen => {
                match parse_list(tokens, i) {
                    Ok((e, j)) => {
                        let ghost d = datum_of(e);
                        list.push(e);
                        assert(datums(list@) =~= datums(before).push(d));
                        i = j;
                    },
                    Err(f) => {
                        return Err(f);
                    },
                }
            },
        }
    }
}

/// Builds the expression for the first balanced group of `tokens`.
pub fn parse_tokens(tokens: &Vec<Token>) -> (r: Result<Expression, Failure>)
    ensures
        match r {
            Ok(e) => parse_list_spec(tokens@, 0) matches Ok((d, _)) && d == datum_of(e),
            Err(f) => parse_list_spec(tokens@, 0) == Err::<(Datum, int), FailureView>(f@),
        },
{
    match parse_list(tokens, 0) {
        Ok((e, _)) => Ok(e),
        Err(f) => Err(f),
    }
}

/// Tokenizes `input` and builds the expression of its first balanced group.
pub fn parse(input: &str, facts: &Facts) -> (r: Result<Expression, Halt>)
    ensures
        match r {
            Ok(e) => exists|ts: Vec<Token>| crate::lexer::tokenized(ts, input@, *facts)
                && (parse_list_spec(ts@, 0) matches Ok((d, _)) && d == datum_of(e)),
            Err(Halt::Failed(f)) => exists|ts: Vec<Token>| crate::lexer::tokenized(ts, input@, *facts)
                && parse_list_spec(ts@, 0) == Err::<(Datum, int), FailureView>(f@),
            Err(Halt::Needs(q)) => crate::lexer::stuck_at(q, input@, *facts),
        },
        r matches Err(Halt::Needs(_)) <==> !crate::lexer::all_known(input@, *facts),
{
    match tokenize(input, facts) {
        Ok(ts) => match parse_tokens(&ts) {
            Ok(e) => Ok(e),
            Err(f) => Err(Halt::Failed(f)),
        },
        Err(q) => Err(Halt::Needs(q)),
    }
}

impl PartialEq for Expression {
    fn eq(&self, other: &Expression) -> (r: bool) {
        expr_eq(self, other)
    }
}

impl vstd::std_specs::cmp::PartialEqSpecImpl for Expression {
    open spec fn obeys_eq_spec() -> bool {
        true
    }

    open spec fn eq_spec(&self, other: &Expression) -> bool {
        datum_of(*self) == datum_of(*other)
    }
}

} // verus!
