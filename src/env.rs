use vstd::prelude::*;

use crate::lexer::text_is;
use crate::parser::{bindings, copy_bindings, datum_of, Datum, Expression, Primitive};

verus! {

/// A scope: bindings from identifier text to value. Names are unique.
#[derive(Debug)]
pub struct Environment {
    pub contents: Vec<(String, Expression)>,
}

/// Whether some binding of `b` has the name `k`.
pub open spec fn has_key(b: Seq<(Seq<char>, Datum)>, k: Seq<char>) -> bool {
    exists|i: int| 0 <= i < b.len() && b[i].0 == k
}

/// Whether `i` is the first position of a binding of `b` named `k`.
pub open spec fn is_first_key(b: Seq<(Seq<char>, Datum)>, k: Seq<char>, i: int) -> bool {
    0 <= i < b.len() && b[i].0 == k && forall|j: int| 0 <= j < i ==> b[j].0 != k
}

pub open spec fn first_key(b: Seq<(Seq<char>, Datum)>, k: Seq<char>) -> int {
    choose|i: int| is_first_key(b, k, i)
}

/// Names are unique.
pub open spec fn unique_keys(b: Seq<(Seq<char>, Datum)>) -> bool {
    forall|i: int, j: int| 0 <= i < b.len() && 0 <= j < b.len() && i != j ==> b[i].0 != b[j].0
}

/// The value bound to `k`, if any.
pub open spec fn lookup(b: Seq<(Seq<char>, Datum)>, k: Seq<char>) -> Option<Datum> {
    if has_key(b, k) {
        Some(b[first_key(b, k)].1)
    } else {
        None
    }
}

/// `b` with `k` bound to `v`: an existing binding is replaced in place, else
/// a new one is added at the end.
pub open spec fn update(b: Seq<(Seq<char>, Datum)>, k: Seq<char>, v: Datum) -> Seq<(Seq<char>, Datum)> {
    if has_key(b, k) {
        b.update(first_key(b, k), (k, v))
    } else {
        b.push((k, v))
    }
}

impl View for Environment {
    type V = Seq<(Seq<char>, Datum)>;

    open spec fn view(&self) -> Seq<(Seq<char>, Datum)> {
        bindings(self.contents@)
    }
}

/// Finds the first position of a binding named `k`.
fn position(contents: &Vec<(String, Expression)>, k: &str) -> (r: Option<usize>)
    ensures
        match r {
            Some(i) => is_first_key(bindings(contents@), k@, i as int),
            None => !has_key(bindings(contents@), k@),
        },
{
    let mut i: usize = 0;
    while i < contents.len()
        invariant
            i <= contents@.len(),
            forall|j: int| 0 <= j < i ==> bindings(contents@)[j].0 != k@,
        decreases contents@.len() - i,
    {
        if text_is(contents[i].0.as_str(), k) {
            return Some(i);
        }
        i += 1;
    }
    None
}

impl Environment {
    pub fn new() -> (r: Environment)
        ensures
            r@ == Seq::<(Seq<char>, Datum)>::empty(),
    {
        let r = Environment { contents: Vec::new() };
        assert(r@ =~= Seq::<(Seq<char>, Datum)>::empty());
        r
    }

    /// Binds `k` to `v`, replacing any binding of `k`.
    pub fn insert(&mut self, k: String, v: Expression)
        ensures
            final(self)@ == update(old(self)@, k@, datum_of(v)),
            unique_keys(old(self)@) ==> unique_keys(final(self)@),
    {
        let ghost b = self@;
        match position(&self.contents, k.as_str()) {
            Some(i) => {
                assert(first_key(b, k@) == i as int);
                let ghost d = datum_of(v);
                let ghost kv = k@;
                self.contents.set(i, (k, v));
                assert(self@ =~= b.update(i as int, (kv, d)));
            },
            None => {
                let ghost d = datum_of(v);
                let ghost kv = k@;
                self.contents.push((k, v));
                assert(self@ =~= b.push((kv, d)));
            },
        }
    }

    /// The value bound to `k`, if any.
    pub fn get(&self, k: &str) -> (r: Option<&Expression>)
        ensures
            match r {
                Some(e) => lookup(self@, k@) == Some(datum_of(*e)),
                None => lookup(self@, k@) is None,
            },
    {
        match position(&self.contents, k) {
            Some(i) => {
                assert(first_key(self@, k@) == i as int);
                Some(&self.contents[i].1)
            },
            None => None,
        }
    }

    /// A full copy of all the bindings.
    pub fn copy(&self) -> (r: Environment)
        ensures
            r@ == self@,
    {
        Environment { contents: copy_bindings(&self.contents) }
    }
}

/// The bit pattern of the binary64 number nearest to pi.
pub const PI_BITS: u64 = 0x400921FB54442D18;

/// The bindings of the standard environment: the operator library and `pi`.
pub open spec fn standard_bindings() -> Seq<(Seq<char>, Datum)> {
    seq![
        ("+"@, Datum::Primitive(Primitive::Add)),
        ("-"@, Datum::Primitive(Primitive::Subtract)),
        ("*"@, Datum::Primitive(Primitive::Multiply)),
        ("/"@, Datum::Primitive(Primitive::Divide)),
        ("pow"@, Datum::Primitive(Primitive::Power)),
        ("="@, Datum::Primitive(Primitive::Equal)),
        (">"@, Datum::Primitive(Primitive::Greater)),
        ("<"@, Datum::Primitive(Primitive::Less)),
        (">="@, Datum::Primitive(Primitive::GreaterEqual)),
        ("<="@, Datum::Primitive(Primitive::LessEqual)),
        ("pi"@, Datum::Number(PI_BITS)),
    ]
}

fn bind(contents: &mut Vec<(String, Expression)>, k: &str, v: Expression)
    ensures
        bindings(final(contents)@) == bindings(old(contents)@).push((k@, datum_of(v))),
{
    let ghost before = contents@;
    let ghost d = datum_of(v);
    let name = k.to_owned();
    contents.push((name, v));
    assert(bindings(contents@) =~= bindings(before).push((k@, d)));
}

/// An environment with the operator library and the constant `pi`.
pub fn standard_env() -> (r: Environment)
    ensures
        r@ == standard_bindings(),
        unique_keys(r@),
{
    let mut c: Vec<(String, Expression)> = Vec::new();
    assert(bindings(c@) =~= Seq::<(Seq<char>, Datum)>::empty());
    bind(&mut c, "+", Expression::Func(Primitive::Add));
    bind(&mut c, "-", Expression::Func(Primitive::Subtract));
    bind(&mut c, "*", Expression::Func(Primitive::Multiply));
    bind(&mut c, "/", Expression::Func(Primitive::Divide));
    bind(&mut c, "pow", Expression::Func(Primitive::Power));
    bind(&mut c, "=", Expression::Func(Primitive::Equal));
    bind(&mut c, ">", Expression::Func(Primitive::Greater));
    bind(&mut c, "<", Expression::Func(Primitive::Less));
    bind(&mut c, ">=", Expression::Func(Primitive::GreaterEqual));
    bind(&mut c, "<=", Expression::Func(Primitive::LessEqual));
    bind(&mut c, "pi", Expression::Number(PI_BITS));
    let r = Environment { contents: c };
    assert(r@ =~= standard_bindings());
    proof {
        lemma_standard_keys_unique();
    }
    r
}

proof fn lemma_standard_keys_unique()
    ensures
        unique_keys(standard_bindings()),
{
    let b = standard_bindings();
    reveal_strlit("+");
    reveal_strlit("-");
    reveal_strlit("*");
    reveal_strlit("/");
    reveal_strlit("pow");
    reveal_strlit("=");
    reveal_strlit(">");
    reveal_strlit("<");
    reveal_strlit(">=");
    reveal_strlit("<=");
    reveal_strlit("pi");
    assert(b[0].0 =~= seq!['+']);
    assert(b[1].0 =~= seq!['-']);
    assert(b[2].0 =~= seq!['*']);
    assert(b[3].0 =~= seq!['/']);
    assert(b[4].0 =~= seq!['p', 'o', 'w']);
    assert(b[5].0 =~= seq!['=']);
    assert(b[6].0 =~= seq!['>']);
    assert(b[7].0 =~= seq!['<']);
    assert(b[8].0 =~= seq!['>', '=']);
    assert(b[9].0 =~= seq!['<', '=']);
    assert(b[10].0 =~= seq!['p', 'i']);
    assert forall|i: int, j: int| 0 <= i < b.len() && 0 <= j < b.len() && i != j implies b[i].0 != b[j].0 by {
        if b[i].0.len() == b[j].0.len() {
            assert(b[i].0[0] != b[j].0[0] || b[i].0[b[i].0.len() - 1] != b[j].0[b[j].0.len() - 1]);
        }
    }
}

} // verus!
