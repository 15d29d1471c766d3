use vstd::prelude::*;

use crate::env::{is_first_key, lookup, standard_bindings, update, Environment, PI_BITS};
use crate::halt::{produces, Failure, FailureView, Halt, HaltView};
use crate::lexer::{all_known, stuck_at, text_is, tokenized, Token};
use crate::numeric::Facts;
use crate::operators::{apply, apply_asks_missing, apply_spec, apply_stable};
use crate::parser::{
    copy_expr, datum_of, datums, lemma_datum_of_function, lemma_datum_of_list, parse, parse_list_spec, Datum,
    Expression, Procedure,
};

verus! {

/// How deep lists and procedure calls may nest in one evaluation.
pub const MAX_DEPTH: u64 = 512;

pub open spec fn failed(f: FailureView) -> Result<Datum, HaltView> {
    Err(HaltView::Failed(f))
}

/// The value of `e` under `env`, and the environment after it.
pub open spec fn eval_spec(e: Datum, env: Seq<(Seq<char>, Datum)>, facts: Facts, fuel: nat) -> (
    Result<Datum, HaltView>,
    Seq<(Seq<char>, Datum)>,
)
    decreases fuel, 0int, 0int,
{
    match e {
        Datum::Symbol(s) => (
            match lookup(env, s) {
                Some(v) => Ok(v),
                None => failed(FailureView::UndefinedSymbol(s)),
            },
            env,
        ),
        Datum::List(items) => if fuel == 0 {
            (failed(FailureView::TooDeep), env)
        } else {
            eval_list_spec(items, env, facts, (fuel - 1) as nat)
        },
        _ => (Ok(e), env),
    }
}

/// The value of a list: a special form or a procedure application.
pub open spec fn eval_list_spec(items: Seq<Datum>, env: Seq<(Seq<char>, Datum)>, facts: Facts, fuel: nat) -> (
    Result<Datum, HaltView>,
    Seq<(Seq<char>, Datum)>,
)
    decreases fuel, 2int, 0int,
{
    if items.len() == 0 {
        (failed(FailureView::ExpectedSymbol), env)
    } else {
        match items[0] {
            Datum::Symbol(s) => if s == "define"@ {
                define_spec(items, env, facts, fuel)
            } else if s == "if"@ {
                if_spec(items, env, facts, fuel)
            } else {
                match lookup(env, s) {
                    Some(Datum::Primitive(p)) => {
                        let (a, env1) = eval_args_spec(items, 1, Seq::empty(), env, facts, fuel);
                        (
                            match a {
                                Ok(vs) => apply_spec(p, vs, facts),
                                Err(h) => Err(h),
                            },
                            env1,
                        )
                    },
                    Some(Datum::Closure(params, body, captured)) => {
                        let (a, _) = eval_args_spec(items, 1, Seq::empty(), env, facts, fuel);
                        (
                            match a {
                                Ok(vs) => call_spec(s, params, body, captured, vs, facts, fuel),
                                Err(h) => Err(h),
                            },
                            env,
                        )
                    },
                    _ => (failed(FailureView::UndefinedProcedure(s)), env),
                }
            },
            _ => (failed(FailureView::ExpectedSymbol), env),
        }
    }
}

/// `(define (name param...) body...)` or `(define name value)`.
pub open spec fn define_spec(items: Seq<Datum>, env: Seq<(Seq<char>, Datum)>, facts: Facts, fuel: nat) -> (
    Result<Datum, HaltView>,
    Seq<(Seq<char>, Datum)>,
)
    decreases fuel, 1int, 0int,
{
    if items.len() < 3 {
        (failed(FailureView::InvalidDefine), env)
    } else {
        match items[1] {
            Datum::List(target) => if target.len() > 0 && target[0] is Symbol {
                let name = target[0]->Symbol_0;
                let closure = Datum::Closure(
                    target.subrange(1, target.len() as int),
                    items.subrange(2, items.len() as int),
                    env,
                );
                (Ok(Datum::Symbol(name)), update(env, name, closure))
            } else {
                (failed(FailureView::InvalidDefine), env)
            },
            Datum::Symbol(name) => {
                let (r, env1) = eval_spec(items[2], env, facts, fuel);
                match r {
                    Ok(v) => (Ok(Datum::Symbol(name)), update(env1, name, v)),
                    Err(h) => (Err(h), env1),
                }
            },
            _ => (failed(FailureView::InvalidDefine), env),
        }
    }
}

/// `(if cond then else)`: only the branch taken is evaluated.
pub open spec fn if_spec(items: Seq<Datum>, env: Seq<(Seq<char>, Datum)>, facts: Facts, fuel: nat) -> (
    Result<Datum, HaltView>,
    Seq<(Seq<char>, Datum)>,
)
    decreases fuel, 1int, 0int,
{
    if items.len() != 4 {
        (failed(FailureView::InvalidIf), env)
    } else {
        let (c, env1) = eval_spec(items[1], env, facts, fuel);
        match c {
            Ok(Datum::Bool(true)) => eval_spec(items[2], env1, facts, fuel),
            Ok(Datum::Bool(false)) => eval_spec(items[3], env1, facts, fuel),
            Ok(_) => (failed(FailureView::InvalidCondition), env1),
            Err(h) => (Err(h), env1),
        }
    }
}

/// The values of `items` from position `i` on, left to right, after `acc`.
pub open spec fn eval_args_spec(
    items: Seq<Datum>,
    i: int,
    acc: Seq<Datum>,
    env: Seq<(Seq<char>, Datum)>,
    facts: Facts,
    fuel: nat,
) -> (Result<Seq<Datum>, HaltView>, Seq<(Seq<char>, Datum)>)
    decreases fuel, 1int, items.len() - i,
{
    if i < 0 || i >= items.len() {
        (Ok(acc), env)
    } else {
        let (r, env1) = eval_spec(items[i], env, facts, fuel);
        match r {
            Ok(v) => eval_args_spec(items, i + 1, acc.push(v), env1, facts, fuel),
            Err(h) => (Err(h), env1),
        }
    }
}

/// The bindings of a call: each parameter bound to the argument at its
/// position, as far as both go.
pub open spec fn bind_params_spec(params: Seq<Datum>, args: Seq<Datum>, i: int, local: Seq<(Seq<char>, Datum)>) -> Result<
    Seq<(Seq<char>, Datum)>,
    HaltView,
>
    decreases params.len() - i,
{
    if i < 0 || i >= params.len() || i >= args.len() {
        Ok(local)
    } else {
        match params[i] {
            Datum::Symbol(p) => bind_params_spec(params, args, i + 1, update(local, p, args[i])),
            _ => Err(HaltView::Failed(FailureView::InvalidParameter)),
        }
    }
}

/// A call of the closure bound to `name` on evaluated arguments.
pub open spec fn call_spec(
    name: Seq<char>,
    params: Seq<Datum>,
    body: Seq<Datum>,
    captured: Seq<(Seq<char>, Datum)>,
    args: Seq<Datum>,
    facts: Facts,
    fuel: nat,
) -> Result<Datum, HaltView>
    decreases fuel, 1int, 0int,
{
    let local = update(captured, name, Datum::Closure(params, body, captured));
    match bind_params_spec(params, args, 0, local) {
        Ok(frame) => if fuel == 0 {
            failed(FailureView::TooDeep)
        } else {
            eval_body_spec(body, 0, frame, facts, (fuel - 1) as nat, Datum::Bool(false))
        },
        Err(h) => Err(h),
    }
}

/// The value of the last body expression, evaluated in sequence from `i`.
pub open spec fn eval_body_spec(
    body: Seq<Datum>,
    i: int,
    env: Seq<(Seq<char>, Datum)>,
    facts: Facts,
    fuel: nat,
    last: Datum,
) -> Result<Datum, HaltView>
    decreases fuel, 1int, body.len() - i,
{
    if i < 0 || i >= body.len() {
        Ok(last)
    } else {
        let (r, env1) = eval_spec(body[i], env, facts, fuel);
        match r {
            Ok(v) => eval_body_spec(body, i + 1, env1, facts, fuel, v),
            Err(h) => Err(h),
        }
    }
}

/// Copies of the elements of `v` from position `from` on.
fn copy_from(v: &Vec<Expression>, from: usize) -> (r: Vec<Expression>)
    requires
        from <= v@.len(),
    ensures
        datums(r@) == datums(v@).subrange(from as int, v@.len() as int),
{
    let mut out: Vec<Expression> = Vec::new();
    let mut i: usize = from;
    while i < v.len()
        invariant
            from <= i <= v@.len(),
            datums(out@) =~= datums(v@).subrange(from as int, i as int),
        decreases v@.len() - i,
    {
        let c = copy_expr(&v[i]);
        let ghost before = out@;
        out.push(c);
        assert(out@ == before.push(c));
        assert(datums(out@) =~= datums(before).push(datum_of(c)));
        assert(datums(v@)[i as int] == datum_of(v@[i as int]));
        assert(datums(out@) =~= datums(v@).subrange(from as int, i + 1));
        i += 1;
    }
    out
}

pub open spec fn evaluated(
    r: Result<Expression, Halt>,
    env: Seq<(Seq<char>, Datum)>,
    s: (Result<Datum, HaltView>, Seq<(Seq<char>, Datum)>),
) -> bool {
    produces(r, s.0) && env == s.1
}

fn eval_expr(e: &Expression, env: &mut Environment, facts: &Facts, fuel: u64) -> (r: Result<Expression, Halt>)
    ensures
        evaluated(r, final(env)@, eval_spec(datum_of(*e), old(env)@, *facts, fuel as nat)),
    decreases fuel, 0int,
{
    match e {
        Expression::Symbol(s) => match env.get(s) {
            Some(v) => Ok(copy_expr(v)),
            None => Err(Halt::Failed(Failure::UndefinedSymbol(s.clone()))),
        },
        Expression::List(items) => {
            proof {
                lemma_datum_of_list(*items);
            }
            if fuel == 0 {
                Err(Halt::Failed(Failure::TooDeep))
            } else {
                eval_list(items, env, facts, fuel - 1)
            }
        },
        _ => Ok(copy_expr(e)),
    }
}

fn eval_list(items: &Vec<Expression>, env: &mut Environment, facts: &Facts, fuel: u64) -> (r: Result<Expression, Halt>)
    ensures
        evaluated(r, final(env)@, eval_list_spec(datums(items@), old(env)@, *facts, fuel as nat)),
    decreases fuel, 2int,
{
    if items.len() == 0 {
        return Err(Halt::Failed(Failure::ExpectedSymbol));
    }
    let s = match &items[0] {
        Expression::Symbol(s) => s,
        _ => {
            return Err(Halt::Failed(Failure::ExpectedSymbol));
        },
    };
    if text_is(s.as_str(), "define") {
        return eval_define(items, env, facts, fuel);
    }
    if text_is(s.as_str(), "if") {
        return eval_if(items, env, facts, fuel);
    }
    let callee = match env.get(s) {
        Some(Expression::Func(p)) => {
            let p = *p;
            return match eval_args(items, env, facts, fuel) {
                Ok(args) => apply(p, args.as_slice(), facts),
                Err(h) => Err(h),
            };
        },
        Some(f) => copy_expr(f),
        None => {
            return Err(Halt::Failed(Failure::UndefinedProcedure(s.clone())));
        },
    };
    match &callee {
        Expression::Function(p) => {
            proof {
                lemma_datum_of_function(*p);
            }
            let mut scratch = env.copy();
            match eval_args(items, &mut scratch, facts, fuel) {
                Ok(args) => call_closure(s, p, args, facts, fuel),
                Err(h) => Err(h),
            }
        },
        _ => Err(Halt::Failed(Failure::UndefinedProcedure(s.clone()))),
    }
}

fn eval_args(items: &Vec<Expression>, env: &mut Environment, facts: &Facts, fuel: u64) -> (r: Result<Vec<Expression>, Halt>)
    ensures
        match r {
            Ok(vs) => eval_args_spec(datums(items@), 1, Seq::empty(), old(env)@, *facts, fuel as nat) == (
                Ok::<Seq<Datum>, HaltView>(datums(vs@)),
                final(env)@,
            ),
            Err(h) => eval_args_spec(datums(items@), 1, Seq::empty(), old(env)@, *facts, fuel as nat) == (
                Err::<Seq<Datum>, HaltView>(h@),
                final(env)@,
            ),
        },
    decreases fuel, 1int,
{
    let ghost d = datums(items@);
    let mut out: Vec<Expression> = Vec::new();
    let mut i: usize = 1;
    assert(datums(out@) =~= Seq::<Datum>::empty());
    while i < items.len()
        invariant
            d == datums(items@),
            1 <= i,
            i <= items@.len() || items@.len() == 0,
            eval_args_spec(d, 1, Seq::empty(), old(env)@, *facts, fuel as nat) == eval_args_spec(
                d,
                i as int,
                datums(out@),
                env@,
                *facts,
                fuel as nat,
            ),
        decreases items@.len() - i,
    {
        match eval_expr(&items[i], env, facts, fuel) {
            Ok(v) => {
                let ghost before = out@;
                out.push(v);
                assert(datums(out@) =~= datums(before).push(datum_of(v)));
            },
            Err(h) => {
                return Err(h);
            },
        }
        i += 1;
    }
    Ok(out)
}

fn eval_define(items: &Vec<Expression>, env: &mut Environment, facts: &Facts, fuel: u64) -> (r: Result<Expression, Halt>)
    ensures
        evaluated(r, final(env)@, define_spec(datums(items@), old(env)@, *facts, fuel as nat)),
    decreases fuel, 1int,
{
    if items.len() < 3 {
        return Err(Halt::Failed(Failure::InvalidDefine));
    }
    match &items[1] {
        Expression::List(target) => {
            proof {
                lemma_datum_of_list(*target);
            }
            if target.len() > 0 {
                if let Expression::Symbol(name) = &target[0] {
                    let params = copy_from(target, 1);
                    let body = copy_from(items, 2);
                    let p = Procedure { params, body, env: env.copy() };
                    proof {
                        lemma_datum_of_function(p);
                    }
                    env.insert(name.clone(), Expression::Function(p));
                    return Ok(Expression::Symbol(name.clone()));
                }
            }
            Err(Halt::Failed(Failure::InvalidDefine))
        },
        Expression::Symbol(name) => match eval_expr(&items[2], env, facts, fuel) {
            Ok(v) => {
                env.insert(name.clone(), v);
                Ok(Expression::Symbol(name.clone()))
            },
            Err(h) => Err(h),
        },
        _ => Err(Halt::Failed(Failure::InvalidDefine)),
    }
}

fn eval_if(items: &Vec<Expression>, env: &mut Environment, facts: &Facts, fuel: u64) -> (r: Result<Expression, Halt>)
    ensures
        evaluated(r, final(env)@, if_spec(datums(items@), old(env)@, *facts, fuel as nat)),
    decreases fuel, 1int,
{
    if items.len() != 4 {
        return Err(Halt::Failed(Failure::InvalidIf));
    }
    match eval_expr(&items[1], env, facts, fuel) {
        Ok(Expression::Bool(true)) => eval_expr(&items[2], env, facts, fuel),
        Ok(Expression::Bool(false)) => eval_expr(&items[3], env, facts, fuel),
        Ok(_) => Err(Halt::Failed(Failure::InvalidCondition)),
        Err(h) => Err(h),
    }
}

fn call_closure(name: &String, p: &Procedure, args: Vec<Expression>, facts: &Facts, fuel: u64) -> (r: Result<Expression, Halt>)
    ensures
        produces(r, call_spec(name@, datums(p.params@), datums(p.body@), p.env@, datums(args@), *facts, fuel as nat)),
    decreases fuel, 1int,
{
    let ghost params = datums(p.params@);
    let ghost vs = datums(args@);
    let mut local = p.env.copy();
    let me = Procedure { params: copy_from(&p.params, 0), body: copy_from(&p.body, 0), env: p.env.copy() };
    proof {
        lemma_datum_of_function(me);
        assert(datums(p.params@).subrange(0, p.params@.len() as int) =~= datums(p.params@));
        assert(datums(p.body@).subrange(0, p.body@.len() as int) =~= datums(p.body@));
    }
    local.insert(name.clone(), Expression::Function(me));
    let mut i: usize = 0;
    while i < p.params.len() && i < args.len()
        invariant
            params == datums(p.params@),
            vs == datums(args@),
            i <= p.params@.len(),
            bind_params_spec(params, vs, 0, update(p.env@, name@, Datum::Closure(params, datums(p.body@), p.env@)))
                == bind_params_spec(params, vs, i as int, local@),
        decreases p.params@.len() - i,
    {
        match &p.params[i] {
            Expression::Symbol(q) => {
                local.insert(q.clone(), copy_expr(&args[i]));
            },
            _ => {
                return Err(Halt::Failed(Failure::InvalidParameter));
            },
        }
        i += 1;
    }
    if fuel == 0 {
        return Err(Halt::Failed(Failure::TooDeep));
    }
    eval_body(&p.body, &mut local, facts, fuel - 1)
}

fn eval_body(body: &Vec<Expression>, env: &mut Environment, facts: &Facts, fuel: u64) -> (r: Result<Expression, Halt>)
    ensures
        produces(r, eval_body_spec(datums(body@), 0, old(env)@, *facts, fuel as nat, Datum::Bool(false))),
    decreases fuel, 1int,
{
    let ghost d = datums(body@);
    let mut last = Expression::Bool(false);
    let mut i: usize = 0;
    while i < body.len()
        invariant
            d == datums(body@),
            i <= body@.len(),
            eval_body_spec(d, 0, old(env)@, *facts, fuel as nat, Datum::Bool(false)) == eval_body_spec(
                d,
                i as int,
                env@,
                *facts,
                fuel as nat,
                datum_of(last),
            ),
        decreases body@.len() - i,
    {
        match eval_expr(&body[i], env, facts, fuel) {
            Ok(v) => {
                last = v;
            },
            Err(h) => {
                return Err(h);
            },
        }
        i += 1;
    }
    Ok(last)
}

/// An `if` whose condition evaluates to true has the value of its then-branch,
/// evaluated after the condition; the else-branch is never evaluated, so any
/// expression in its place gives the same outcome.
pub proof fn if_true_takes_then(c: Datum, t: Datum, x: Datum, y: Datum, env: Seq<(Seq<char>, Datum)>, facts: Facts, fuel: nat)
    requires
        eval_spec(c, env, facts, fuel).0 == Ok::<Datum, HaltView>(Datum::Bool(true)),
    ensures
        eval_spec(Datum::List(seq![Datum::Symbol("if"@), c, t, x]), env, facts, fuel + 1)
            == eval_spec(t, eval_spec(c, env, facts, fuel).1, facts, fuel),
        eval_spec(Datum::List(seq![Datum::Symbol("if"@), c, t, x]), env, facts, fuel + 1)
            == eval_spec(Datum::List(seq![Datum::Symbol("if"@), c, t, y]), env, facts, fuel + 1),
{
    reveal_strlit("if");
    reveal_strlit("define");
    assert("if"@[0] == 'i' && "define"@[0] == 'd');
    assert("if"@ != "define"@);
}

/// An `if` whose condition evaluates to false has the value of its
/// else-branch; the then-branch is never evaluated.
pub proof fn if_false_takes_else(c: Datum, t: Datum, u: Datum, x: Datum, env: Seq<(Seq<char>, Datum)>, facts: Facts, fuel: nat)
    requires
        eval_spec(c, env, facts, fuel).0 == Ok::<Datum, HaltView>(Datum::Bool(false)),
    ensures
        eval_spec(Datum::List(seq![Datum::Symbol("if"@), c, t, x]), env, facts, fuel + 1)
            == eval_spec(x, eval_spec(c, env, facts, fuel).1, facts, fuel),
        eval_spec(Datum::List(seq![Datum::Symbol("if"@), c, t, x]), env, facts, fuel + 1)
            == eval_spec(Datum::List(seq![Datum::Symbol("if"@), c, u, x]), env, facts, fuel + 1),
{
    reveal_strlit("if");
    reveal_strlit("define");
    assert("if"@[0] == 'i' && "define"@[0] == 'd');
    assert("if"@ != "define"@);
}

/// A symbol with no binding fails with `UndefinedSymbol`.
pub proof fn undefined_symbol_fails(s: Seq<char>, env: Seq<(Seq<char>, Datum)>, facts: Facts, fuel: nat)
    requires
        lookup(env, s) is None,
    ensures
        eval_spec(Datum::Symbol(s), env, facts, fuel) == (failed(FailureView::UndefinedSymbol(s)), env),
{
}

/// A call headed by a name with no binding fails with `UndefinedProcedure`,
/// before any argument is evaluated.
pub proof fn undefined_procedure_fails(s: Seq<char>, args: Seq<Datum>, env: Seq<(Seq<char>, Datum)>, facts: Facts, fuel: nat)
    requires
        lookup(env, s) is None,
        s != "define"@,
        s != "if"@,
    ensures
        eval_spec(Datum::List(seq![Datum::Symbol(s)] + args), env, facts, fuel + 1)
            == (failed(FailureView::UndefinedProcedure(s)), env),
{
    assert((seq![Datum::Symbol(s)] + args)[0] == Datum::Symbol(s));
}

/// Evaluating a symbol changes nothing: doing it again gives the same outcome.
pub proof fn symbol_is_idempotent(s: Seq<char>, env: Seq<(Seq<char>, Datum)>, facts: Facts, fuel: nat, fuel2: nat)
    ensures
        eval_spec(Datum::Symbol(s), env, facts, fuel).1 == env,
        eval_spec(Datum::Symbol(s), eval_spec(Datum::Symbol(s), env, facts, fuel).1, facts, fuel2)
            == eval_spec(Datum::Symbol(s), env, facts, fuel),
{
}

/// In the standard environment `pi` is the binary64 number nearest to pi.
pub proof fn standard_pi()
    ensures
        lookup(standard_bindings(), "pi"@) == Some(Datum::Number(PI_BITS)),
{
    let b = standard_bindings();
    reveal_strlit("+");
    reveal_strlit("-");
    reveal_strlit("*");
    reveal_strlit("/");
    reveal_strlit("pow");
    reveal_strlit("=");
    reveal_strlit(">");
    reveal_strlit("<");
    reveal_strlit(">=");
    reveal_strlit("<=");
    reveal_strlit("pi");
    assert("pi"@.len() == 2);
    assert(b[0].0.len() == 1 && b[1].0.len() == 1 && b[2].0.len() == 1 && b[3].0.len() == 1);
    assert(b[4].0[0] == 'p' && b[4].0.len() == 3);
    assert(b[5].0.len() == 1 && b[6].0.len() == 1 && b[7].0.len() == 1);
    assert(b[0].0 != "pi"@ && b[1].0 != "pi"@ && b[2].0 != "pi"@ && b[3].0 != "pi"@);
    assert(b[4].0 != "pi"@ && b[5].0 != "pi"@ && b[6].0 != "pi"@ && b[7].0 != "pi"@);
    assert(b[8].0[0] == '>' && b[9].0[0] == '<' && "pi"@[0] == 'p');
    assert(b[8].0 != "pi"@ && b[9].0 != "pi"@);
    assert(is_first_key(b, "pi"@, 10));
}

/// `(define (name param...) body...)` binds `name` to a closure over the
/// current bindings and gives the symbol `name`.
pub proof fn define_binds_closure(
    name: Seq<char>,
    params: Seq<Datum>,
    body: Seq<Datum>,
    env: Seq<(Seq<char>, Datum)>,
    facts: Facts,
    fuel: nat,
)
    requires
        body.len() > 0,
    ensures
        eval_spec(
            Datum::List(seq![Datum::Symbol("define"@), Datum::List(seq![Datum::Symbol(name)] + params)] + body),
            env,
            facts,
            fuel + 1,
        ) == (Ok::<Datum, HaltView>(Datum::Symbol(name)), update(env, name, Datum::Closure(params, body, env))),
{
    let target = seq![Datum::Symbol(name)] + params;
    let items = seq![Datum::Symbol("define"@), Datum::List(target)] + body;
    assert(items[0] == Datum::Symbol("define"@));
    assert(items[1] == Datum::List(target));
    assert(target[0] == Datum::Symbol(name));
    assert(target.subrange(1, target.len() as int) =~= params);
    assert(items.subrange(2, items.len() as int) =~= body);
}

/// A call of a defined procedure leaves the caller's bindings as they were:
/// what the body defines stays inside the call.
pub proof fn call_keeps_caller_env(
    s: Seq<char>,
    args: Seq<Datum>,
    params: Seq<Datum>,
    body: Seq<Datum>,
    captured: Seq<(Seq<char>, Datum)>,
    env: Seq<(Seq<char>, Datum)>,
    facts: Facts,
    fuel: nat,
)
    requires
        lookup(env, s) == Some(Datum::Closure(params, body, captured)),
        s != "define"@,
        s != "if"@,
    ensures
        eval_spec(Datum::List(seq![Datum::Symbol(s)] + args), env, facts, fuel + 1).1 == env,
{
    assert((seq![Datum::Symbol(s)] + args)[0] == Datum::Symbol(s));
}

/// Where evaluation stops for a numeric fact, the facts do not hold it: each
/// answer the host adds is new, and evaluating again gets past that stop.
pub proof fn eval_asks_missing(e: Datum, env: Seq<(Seq<char>, Datum)>, facts: Facts, fuel: nat)
    ensures
        eval_spec(e, env, facts, fuel).0 matches Err(HaltView::Needs(q)) ==> !facts.answers(q),
    decreases fuel, 0int, 0int,
{
    if let Datum::List(items) = e {
        if fuel > 0 {
            list_asks_missing(items, env, facts, (fuel - 1) as nat);
        }
    }
}

proof fn list_asks_missing(items: Seq<Datum>, env: Seq<(Seq<char>, Datum)>, facts: Facts, fuel: nat)
    ensures
        eval_list_spec(items, env, facts, fuel).0 matches Err(HaltView::Needs(q)) ==> !facts.answers(q),
    decreases fuel, 2int, 0int,
{
    if items.len() > 0 {
        if let Datum::Symbol(s) = items[0] {
            if s == "define"@ {
                if items.len() >= 3 {
                    eval_asks_missing(items[2], env, facts, fuel);
                }
            } else if s == "if"@ {
                if items.len() == 4 {
                    eval_asks_missing(items[1], env, facts, fuel);
                    let env1 = eval_spec(items[1], env, facts, fuel).1;
                    eval_asks_missing(items[2], env1, facts, fuel);
                    eval_asks_missing(items[3], env1, facts, fuel);
                }
            } else {
                args_asks_missing(items, 1, Seq::empty(), env, facts, fuel);
                let a = eval_args_spec(items, 1, Seq::empty(), env, facts, fuel).0;
                if let Ok(vs) = a {
                    match lookup(env, s) {
                        Some(Datum::Primitive(p)) => apply_asks_missing(p, vs, facts),
                        Some(Datum::Closure(params, body, captured)) => {
                            call_asks_missing(s, params, body, captured, vs, facts, fuel);
                        },
                        _ => {},
                    }
                }
            }
        }
    }
}

proof fn args_asks_missing(
    items: Seq<Datum>,
    i: int,
    acc: Seq<Datum>,
    env: Seq<(Seq<char>, Datum)>,
    facts: Facts,
    fuel: nat,
)
    ensures
        eval_args_spec(items, i, acc, env, facts, fuel).0 matches Err(HaltView::Needs(q)) ==> !facts.answers(q),
    decreases fuel, 1int, items.len() - i,
{
    if 0 <= i < items.len() {
        eval_asks_missing(items[i], env, facts, fuel);
        let (r, env1) = eval_spec(items[i], env, facts, fuel);
        if let Ok(v) = r {
            args_asks_missing(items, i + 1, acc.push(v), env1, facts, fuel);
        }
    }
}

proof fn call_asks_missing(
    name: Seq<char>,
    params: Seq<Datum>,
    body: Seq<Datum>,
    captured: Seq<(Seq<char>, Datum)>,
    args: Seq<Datum>,
    facts: Facts,
    fuel: nat,
)
    ensures
        call_spec(name, params, body, captured, args, facts, fuel) matches Err(HaltView::Needs(q)) ==> !facts.answers(q),
    decreases fuel, 1int, 0int,
{
    let local = update(captured, name, Datum::Closure(params, body, captured));
    bind_asks_nothing(params, args, 0, local);
    if let Ok(frame) = bind_params_spec(params, args, 0, local) {
        if fuel > 0 {
            body_asks_missing(body, 0, frame, facts, (fuel - 1) as nat, Datum::Bool(false));
        }
    }
}

proof fn bind_asks_nothing(params: Seq<Datum>, args: Seq<Datum>, i: int, local: Seq<(Seq<char>, Datum)>)
    ensures
        !(bind_params_spec(params, args, i, local) matches Err(HaltView::Needs(_))),
    decreases params.len() - i,
{
    if 0 <= i < params.len() && i < args.len() {
        if let Datum::Symbol(p) = params[i] {
            bind_asks_nothing(params, args, i + 1, update(local, p, args[i]));
        }
    }
}

proof fn body_asks_missing(
    body: Seq<Datum>,
    i: int,
    env: Seq<(Seq<char>, Datum)>,
    facts: Facts,
    fuel: nat,
    last: Datum,
)
    ensures
        eval_body_spec(body, i, env, facts, fuel, last) matches Err(HaltView::Needs(q)) ==> !facts.answers(q),
    decreases fuel, 1int, body.len() - i,
{
    if 0 <= i < body.len() {
        eval_asks_missing(body[i], env, facts, fuel);
        let (r, env1) = eval_spec(body[i], env, facts, fuel);
        if let Ok(v) = r {
            body_asks_missing(body, i + 1, env1, facts, fuel, v);
        }
    }
}

/// More facts do not change an evaluation that did not stop for a fact:
/// running again after the host answers a stop repeats the work before it.
pub proof fn eval_stable(e: Datum, env: Seq<(Seq<char>, Datum)>, f1: Facts, f2: Facts, fuel: nat)
    requires
        f2.extends(f1),
        !(eval_spec(e, env, f1, fuel).0 matches Err(HaltView::Needs(_))),
    ensures
        eval_spec(e, env, f2, fuel) == eval_spec(e, env, f1, fuel),
    decreases fuel, 0int, 0int,
{
    if let Datum::List(items) = e {
        if fuel > 0 {
            list_stable(items, env, f1, f2, (fuel - 1) as nat);
        }
    }
}

proof fn list_stable(items: Seq<Datum>, env: Seq<(Seq<char>, Datum)>, f1: Facts, f2: Facts, fuel: nat)
    requires
        f2.extends(f1),
        !(eval_list_spec(items, env, f1, fuel).0 matches Err(HaltView::Needs(_))),
    ensures
        eval_list_spec(items, env, f2, fuel) == eval_list_spec(items, env, f1, fuel),
    decreases fuel, 2int, 0int,
{
    if items.len() > 0 {
        if let Datum::Symbol(s) = items[0] {
            if s == "define"@ {
                if items.len() >= 3 {
                    if let Datum::Symbol(_) = items[1] {
                        eval_stable(items[2], env, f1, f2, fuel);
                    }
                }
            } else if s == "if"@ {
                if items.len() == 4 {
                    eval_stable(items[1], env, f1, f2, fuel);
                    let (c, env1) = eval_spec(items[1], env, f1, fuel);
                    if c == Ok::<Datum, HaltView>(Datum::Bool(true)) {
                        eval_stable(items[2], env1, f1, f2, fuel);
                    } else if c == Ok::<Datum, HaltView>(Datum::Bool(false)) {
                        eval_stable(items[3], env1, f1, f2, fuel);
                    }
                }
            } else {
                match lookup(env, s) {
                    Some(Datum::Primitive(p)) => {
                        args_stable(items, 1, Seq::empty(), env, f1, f2, fuel);
                        if let Ok(vs) = eval_args_spec(items, 1, Seq::empty(), env, f1, fuel).0 {
                            apply_stable(p, vs, f1, f2);
                        }
                    },
                    Some(Datum::Closure(params, body, captured)) => {
                        args_stable(items, 1, Seq::empty(), env, f1, f2, fuel);
                        if let Ok(vs) = eval_args_spec(items, 1, Seq::empty(), env, f1, fuel).0 {
                            call_stable(s, params, body, captured, vs, f1, f2, fuel);
                        }
                    },
                    _ => {},
                }
            }
        }
    }
}

proof fn args_stable(
    items: Seq<Datum>,
    i: int,
    acc: Seq<Datum>,
    env: Seq<(Seq<char>, Datum)>,
    f1: Facts,
    f2: Facts,
    fuel: nat,
)
    requires
        f2.extends(f1),
        !(eval_args_spec(items, i, acc, env, f1, fuel).0 matches Err(HaltView::Needs(_))),
    ensures
        eval_args_spec(items, i, acc, env, f2, fuel) == eval_args_spec(items, i, acc, env, f1, fuel),
    decreases fuel, 1int, items.len() - i,
{
    if 0 <= i < items.len() {
        eval_stable(items[i], env, f1, f2, fuel);
        let (r, env1) = eval_spec(items[i], env, f1, fuel);
        if let Ok(v) = r {
            args_stable(items, i + 1, acc.push(v), env1, f1, f2, fuel);
        }
    }
}

proof fn call_stable(
    name: Seq<char>,
    params: Seq<Datum>,
    body: Seq<Datum>,
    captured: Seq<(Seq<char>, Datum)>,
    args: Seq<Datum>,
    f1: Facts,
    f2: Facts,
    fuel: nat,
)
    requires
        f2.extends(f1),
        !(call_spec(name, params, body, captured, args, f1, fuel) matches Err(HaltView::Needs(_))),
    ensures
        call_spec(name, params, body, captured, args, f2, fuel) == call_spec(name, params, body, captured, args, f1, fuel),
    decreases fuel, 1int, 0int,
{
    let local = update(captured, name, Datum::Closure(params, body, captured));
    if let Ok(frame) = bind_params_spec(params, args, 0, local) {
        if fuel > 0 {
            body_stable(body, 0, frame, f1, f2, (fuel - 1) as nat, Datum::Bool(false));
        }
    }
}

proof fn body_stable(
    body: Seq<Datum>,
    i: int,
    env: Seq<(Seq<char>, Datum)>,
    f1: Facts,
    f2: Facts,
    fuel: nat,
    last: Datum,
)
    requires
        f2.extends(f1),
        !(eval_body_spec(body, i, env, f1, fuel, last) matches Err(HaltView::Needs(_))),
    ensures
        eval_body_spec(body, i, env, f2, fuel, last) == eval_body_spec(body, i, env, f1, fuel, last),
    decreases fuel, 1int, body.len() - i,
{
    if 0 <= i < body.len() {
        eval_stable(body[i], env, f1, f2, fuel);
        let (r, env1) = eval_spec(body[i], env, f1, fuel);
        if let Ok(v) = r {
            body_stable(body, i + 1, env1, f1, f2, fuel, v);
        }
    }
}

/// What evaluating `d` at the top level gives. Where evaluation stops for a
/// numeric fact, the environment stays as it was, so that the evaluation can
/// be run again once the fact is known.
pub open spec fn run_spec(d: Datum, env: Seq<(Seq<char>, Datum)>, facts: Facts) -> (
    Result<Datum, HaltView>,
    Seq<(Seq<char>, Datum)>,
) {
    let (r, env1) = eval_spec(d, env, facts, MAX_DEPTH as nat);
    if r matches Err(HaltView::Needs(_)) {
        (r, env)
    } else {
        (r, env1)
    }
}

/// Evaluates a parsed expression under `env`, applying its definitions to `env`.
pub fn eval_expression(e: &Expression, env: &mut Environment, facts: &Facts) -> (r: Result<Expression, Halt>)
    ensures
        evaluated(r, final(env)@, run_spec(datum_of(*e), old(env)@, *facts)),
{
    let mut work = env.copy();
    let r = eval_expr(e, &mut work, facts, MAX_DEPTH);
    if let Err(Halt::Needs(_)) = &r {
    } else {
        *env = work;
    }
    r
}

/// Parses `program` and evaluates its expression under `env`.
pub fn eval(program: &str, env: &mut Environment, facts: &Facts) -> (r: Result<Expression, Halt>)
    ensures
        all_known(program@, *facts) ==> exists|ts: Vec<Token>|
            tokenized(ts, program@, *facts) && match parse_list_spec(ts@, 0) {
                Ok((d, _)) => evaluated(r, final(env)@, run_spec(d, old(env)@, *facts)),
                Err(f) => (r matches Err(h) && h@ == HaltView::Failed(f)) && final(env)@ == old(env)@,
            },
        !all_known(program@, *facts) ==> (r matches Err(Halt::Needs(q)) && stuck_at(q, program@, *facts)
            && final(env)@ == old(env)@),
{
    match parse(program, facts) {
        Ok(e) => eval_expression(&e, env, facts),
        Err(h) => Err(h),
    }
}

} // verus!
