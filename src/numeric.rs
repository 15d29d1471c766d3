use vstd::prelude::*;

use crate::parser::Primitive;

verus! {

/// A numeric fact that evaluation needs and that only the host can supply.
#[derive(Debug, PartialEq)]
pub enum Query {
    /// Whether a word reads as a binary64 numeral, and its value.
    Numeral(String),
    /// The number that an arithmetic operator gives on two numbers.
    Arithmetic(Primitive, u64, u64),
    /// The truth value that a comparison operator gives on two numbers.
    Comparison(Primitive, u64, u64),
}

/// The model of a `Query`.
pub enum QueryView {
    Numeral(Seq<char>),
    Arithmetic(Primitive, u64, u64),
    Comparison(Primitive, u64, u64),
}

impl View for Query {
    type V = QueryView;

    open spec fn view(&self) -> QueryView {
        match self {
            Query::Numeral(w) => QueryView::Numeral(w@),
            Query::Arithmetic(op, a, b) => QueryView::Arithmetic(*op, *a, *b),
            Query::Comparison(op, a, b) => QueryView::Comparison(*op, *a, *b),
        }
    }
}

/// The numeric facts that the host has supplied so far. Where one question
/// was answered twice, the first answer counts.
#[derive(Debug)]
pub struct Facts {
    pub numerals: Vec<(String, Option<u64>)>,
    pub arithmetic: Vec<(Primitive, u64, u64, u64)>,
    pub comparisons: Vec<(Primitive, u64, u64, bool)>,
}

pub open spec fn numeral_fact(s: Seq<(String, Option<u64>)>, w: Seq<char>) -> Option<Option<u64>>
    decreases s.len(),
{
    if s.len() == 0 {
        None
    } else if s[0].0@ == w {
        Some(s[0].1)
    } else {
        numeral_fact(s.drop_first(), w)
    }
}

pub open spec fn arithmetic_fact(s: Seq<(Primitive, u64, u64, u64)>, op: Primitive, a: u64, b: u64) -> Option<u64>
    decreases s.len(),
{
    if s.len() == 0 {
        None
    } else if s[0].0 == op && s[0].1 == a && s[0].2 == b {
        Some(s[0].3)
    } else {
        arithmetic_fact(s.drop_first(), op, a, b)
    }
}

pub open spec fn comparison_fact(s: Seq<(Primitive, u64, u64, bool)>, op: Primitive, a: u64, b: u64) -> Option<bool>
    decreases s.len(),
{
    if s.len() == 0 {
        None
    } else if s[0].0 == op && s[0].1 == a && s[0].2 == b {
        Some(s[0].3)
    } else {
        comparison_fact(s.drop_first(), op, a, b)
    }
}

proof fn lemma_numeral_push(s: Seq<(String, Option<u64>)>, x: (String, Option<u64>), w: Seq<char>)
    ensures
        numeral_fact(s, w) is Some ==> numeral_fact(s.push(x), w) == numeral_fact(s, w),
        numeral_fact(s, w) is None && x.0@ == w ==> numeral_fact(s.push(x), w) == Some(x.1),
    decreases s.len(),
{
    if s.len() > 0 {
        assert(s.push(x).drop_first() =~= s.drop_first().push(x));
        lemma_numeral_push(s.drop_first(), x, w);
    }
}

proof fn lemma_arithmetic_push(s: Seq<(Primitive, u64, u64, u64)>, x: (Primitive, u64, u64, u64), op: Primitive, a: u64, b: u64)
    ensures
        arithmetic_fact(s, op, a, b) is Some ==> arithmetic_fact(s.push(x), op, a, b) == arithmetic_fact(s, op, a, b),
        arithmetic_fact(s, op, a, b) is None && x.0 == op && x.1 == a && x.2 == b ==> arithmetic_fact(s.push(x), op, a, b)
            == Some(x.3),
    decreases s.len(),
{
    if s.len() > 0 {
        assert(s.push(x).drop_first() =~= s.drop_first().push(x));
        lemma_arithmetic_push(s.drop_first(), x, op, a, b);
    }
}

proof fn lemma_comparison_push(s: Seq<(Primitive, u64, u64, bool)>, x: (Primitive, u64, u64, bool), op: Primitive, a: u64, b: u64)
    ensures
        comparison_fact(s, op, a, b) is Some ==> comparison_fact(s.push(x), op, a, b) == comparison_fact(s, op, a, b),
        comparison_fact(s, op, a, b) is None && x.0 == op && x.1 == a && x.2 == b ==> comparison_fact(s.push(x), op, a, b)
            == Some(x.3),
    decreases s.len(),
{
    if s.len() > 0 {
        assert(s.push(x).drop_first() =~= s.drop_first().push(x));
        lemma_comparison_push(s.drop_first(), x, op, a, b);
    }
}

impl Facts {
    pub open spec fn numeral(&self, w: Seq<char>) -> Option<Option<u64>> {
        numeral_fact(self.numerals@, w)
    }

    pub open spec fn arithmetic_result(&self, op: Primitive, a: u64, b: u64) -> Option<u64> {
        arithmetic_fact(self.arithmetic@, op, a, b)
    }

    pub open spec fn comparison_result(&self, op: Primitive, a: u64, b: u64) -> Option<bool> {
        comparison_fact(self.comparisons@, op, a, b)
    }

    /// Whether a fact answers the query.
    pub open spec fn answers(&self, q: QueryView) -> bool {
        match q {
            QueryView::Numeral(w) => self.numeral(w) is Some,
            QueryView::Arithmetic(op, a, b) => self.arithmetic_result(op, a, b) is Some,
            QueryView::Comparison(op, a, b) => self.comparison_result(op, a, b) is Some,
        }
    }

    /// Whether `self` answers every question that `f` answers, the same way.
    pub open spec fn extends(&self, f: Facts) -> bool {
        &&& forall|w: Seq<char>| #[trigger] f.numeral(w) is Some ==> self.numeral(w) == f.numeral(w)
        &&& forall|op: Primitive, a: u64, b: u64| #[trigger] f.arithmetic_result(op, a, b) is Some
            ==> self.arithmetic_result(op, a, b) == f.arithmetic_result(op, a, b)
        &&& forall|op: Primitive, a: u64, b: u64| #[trigger] f.comparison_result(op, a, b) is Some
            ==> self.comparison_result(op, a, b) == f.comparison_result(op, a, b)
    }

    pub fn new() -> (r: Facts)
        ensures
            r.numerals@.len() == 0,
            r.arithmetic@.len() == 0,
            r.comparisons@.len() == 0,
    {
        Facts { numerals: Vec::new(), arithmetic: Vec::new(), comparisons: Vec::new() }
    }

    /// Records how a word reads as a numeral (`None`: it is no numeral).
    pub fn add_numeral(&mut self, word: String, value: Option<u64>)
        ensures
            final(self).numerals@ == old(self).numerals@.push((word, value)),
            final(self).arithmetic@ == old(self).arithmetic@,
            final(self).comparisons@ == old(self).comparisons@,
            final(self).extends(*old(self)),
            old(self).numeral(word@) is None ==> final(self).numeral(word@) == Some(value),
    {
        let ghost x = (word, value);
        proof {
            lemma_numeral_push(old(self).numerals@, x, word@);
        }
        self.numerals.push((word, value));
        assert forall|w: Seq<char>| #[trigger] old(self).numeral(w) is Some implies self.numeral(w) == old(self).numeral(w) by {
            lemma_numeral_push(old(self).numerals@, x, w);
        }
    }

    /// Records the number that `op` gives on `a` and `b`.
    pub fn add_arithmetic(&mut self, op: Primitive, a: u64, b: u64, result: u64)
        ensures
            final(self).arithmetic@ == old(self).arithmetic@.push((op, a, b, result)),
            final(self).numerals@ == old(self).numerals@,
            final(self).comparisons@ == old(self).comparisons@,
            final(self).extends(*old(self)),
            old(self).arithmetic_result(op, a, b) is None ==> final(self).arithmetic_result(op, a, b) == Some(result),
    {
        proof {
            lemma_arithmetic_push(old(self).arithmetic@, (op, a, b, result), op, a, b);
        }
        self.arithmetic.push((op, a, b, result));
        assert forall|o: Primitive, x: u64, y: u64| #[trigger] old(self).arithmetic_result(o, x, y) is Some
            implies self.arithmetic_result(o, x, y) == old(self).arithmetic_result(o, x, y) by {
            lemma_arithmetic_push(old(self).arithmetic@, (op, a, b, result), o, x, y);
        }
    }

    /// Records the truth value that `op` gives on `a` and `b`.
    pub fn add_comparison(&mut self, op: Primitive, a: u64, b: u64, result: bool)
        ensures
            final(self).comparisons@ == old(self).comparisons@.push((op, a, b, result)),
            final(self).numerals@ == old(self).numerals@,
            final(self).arithmetic@ == old(self).arithmetic@,
            final(self).extends(*old(self)),
            old(self).comparison_result(op, a, b) is None ==> final(self).comparison_result(op, a, b) == Some(result),
    {
        proof {
            lemma_comparison_push(old(self).comparisons@, (op, a, b, result), op, a, b);
        }
        self.comparisons.push((op, a, b, result));
        assert forall|o: Primitive, x: u64, y: u64| #[trigger] old(self).comparison_result(o, x, y) is Some
            implies self.comparison_result(o, x, y) == old(self).comparison_result(o, x, y) by {
            lemma_comparison_push(old(self).comparisons@, (op, a, b, result), o, x, y);
        }
    }

    pub fn numeral_of(&self, w: &String) -> (r: Option<Option<u64>>)
        ensures
            r == self.numeral(w@),
    {
        let mut i: usize = 0;
        assert(self.numerals@.subrange(0, self.numerals@.len() as int) =~= self.numerals@);
        while i < self.numerals.len()
            invariant
                i <= self.numerals@.len(),
                self.numeral(w@) == numeral_fact(self.numerals@.subrange(i as int, self.numerals@.len() as int), w@),
            decreases self.numerals@.len() - i,
        {
            let ghost rest = self.numerals@.subrange(i as int, self.numerals@.len() as int);
            assert(rest.drop_first() =~= self.numerals@.subrange(i + 1, self.numerals@.len() as int));
            if self.numerals[i].0 == *w {
                return Some(self.numerals[i].1);
            }
            i += 1;
        }
        None
    }

    pub fn arithmetic_of(&self, op: Primitive, a: u64, b: u64) -> (r: Option<u64>)
        ensures
            r == self.arithmetic_result(op, a, b),
    {
        let mut i: usize = 0;
        assert(self.arithmetic@.subrange(0, self.arithmetic@.len() as int) =~= self.arithmetic@);
        while i < self.arithmetic.len()
            invariant
                i <= self.arithmetic@.len(),
                self.arithmetic_result(op, a, b) == arithmetic_fact(
                    self.arithmetic@.subrange(i as int, self.arithmetic@.len() as int), op, a, b),
            decreases self.arithmetic@.len() - i,
        {
            let ghost rest = self.arithmetic@.subrange(i as int, self.arithmetic@.len() as int);
            assert(rest.drop_first() =~= self.arithmetic@.subrange(i + 1, self.arithmetic@.len() as int));
            let f = self.arithmetic[i];
            if f.0 == op && f.1 == a && f.2 == b {
                return Some(f.3);
            }
            i += 1;
        }
        None
    }

    pub fn comparison_of(&self, op: Primitive, a: u64, b: u64) -> (r: Option<bool>)
        ensures
            r == self.comparison_result(op, a, b),
    {
        let mut i: usize = 0;
        assert(self.comparisons@.subrange(0, self.comparisons@.len() as int) =~= self.comparisons@);
        while i < self.comparisons.len()
            invariant
                i <= self.comparisons@.len(),
                self.comparison_result(op, a, b) == comparison_fact(
                    self.comparisons@.subrange(i as int, self.comparisons@.len() as int), op, a, b),
            decreases self.comparisons@.len() - i,
        {
            let ghost rest = self.comparisons@.subrange(i as int, self.comparisons@.len() as int);
            assert(rest.drop_first() =~= self.comparisons@.subrange(i + 1, self.comparisons@.len() as int));
            let f = self.comparisons[i];
            if f.0 == op && f.1 == a && f.2 == b {
                return Some(f.3);
            }
            i += 1;
        }
        None
    }
}

} // verus!
