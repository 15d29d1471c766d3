use vstd::prelude::*;

use crate::numeric::{Facts, Query};

verus! {

/// A lexical token. A number is held as its binary64 bit pattern.
#[derive(Debug, PartialEq)]
pub enum Token {
    OpenParen,
    CloseParen,
    Number(u64),
    Symbol(String),
}

/// The Unicode White_Space property of a character.
pub uninterp spec fn white_space(c: char) -> bool;

/// Relies on `char::is_whitespace`: whether `c` has the Unicode White_Space
/// property, the same test that `str::split_whitespace` splits on.
#[verifier::external_body]
fn is_space(c: char) -> (r: bool)
    ensures
        r == white_space(c),
{
    c.is_whitespace()
}

pub open spec fn is_paren(c: char) -> bool {
    c == '(' || c == ')'
}

pub open spec fn flush(cur: Seq<char>) -> Seq<Seq<char>> {
    if cur.len() == 0 {
        Seq::empty()
    } else {
        seq![cur]
    }
}

/// The words of `s` from position `i` on, where `cur` is the part of a word
/// read before `i`. Each parenthesis is a word of its own; other words are
/// the runs of characters between white space and parentheses.
pub open spec fn scan(s: Seq<char>, i: int, cur: Seq<char>) -> Seq<Seq<char>>
    decreases s.len() - i,
{
    if i >= s.len() {
        flush(cur)
    } else if is_paren(s[i]) {
        flush(cur) + seq![seq![s[i]]] + scan(s, i + 1, Seq::empty())
    } else if white_space(s[i]) {
        flush(cur) + scan(s, i + 1, Seq::empty())
    } else {
        scan(s, i + 1, cur.push(s[i]))
    }
}

/// The words of a source text.
pub open spec fn words_of(s: Seq<char>) -> Seq<Seq<char>> {
    scan(s, 0, Seq::empty())
}

pub open spec fn texts(v: Seq<String>) -> Seq<Seq<char>> {
    v.map_values(|w: String| w@)
}

/// Splits a source text into words: parentheses apart, the rest on white space.
pub fn words(text: &str) -> (r: Vec<String>)
    ensures
        texts(r@) == words_of(text@),
{
    let ghost s = text@;
    let n = text.unicode_len();
    let mut out: Vec<String> = Vec::new();
    let mut start: usize = 0;
    let mut i: usize = 0;
    assert(s.subrange(0, 0) =~= Seq::<char>::empty());
    assert(texts(out@) =~= Seq::<Seq<char>>::empty());
    assert(Seq::<Seq<char>>::empty() + words_of(s) =~= words_of(s));
    while i < n
        invariant
            s == text@,
            n == s.len(),
            start <= i <= n,
            texts(out@) + scan(s, i as int, s.subrange(start as int, i as int)) == words_of(s),
        decreases n - i,
    {
        let c = text.get_char(i);
        let ghost cur = s.subrange(start as int, i as int);
        let ghost before = texts(out@);
        if c == '(' || c == ')' || is_space(c) {
            if start < i {
                let w = text.substring_char(start, i).to_owned();
                assert(w@ == cur);
                out.push(w);
                assert(texts(out@) =~= before + flush(cur));
            } else {
                assert(texts(out@) =~= before + flush(cur));
            }
            if c == '(' || c == ')' {
                let ghost mid = texts(out@);
                let p = text.substring_char(i, i + 1).to_owned();
                assert(p@ =~= seq![s[i as int]]);
                out.push(p);
                assert(texts(out@) =~= mid + seq![seq![s[i as int]]]);
                assert(texts(out@) + scan(s, i + 1, Seq::empty()) =~= before + scan(s, i as int, cur));
            } else {
                assert(texts(out@) + scan(s, i + 1, Seq::empty()) =~= before + scan(s, i as int, cur));
            }
            start = i + 1;
            assert(s.subrange(start as int, i + 1) =~= Seq::<char>::empty());
        } else {
            assert(cur.push(s[i as int]) =~= s.subrange(start as int, i + 1));
        }
        i += 1;
    }
    let ghost before = texts(out@);
    if start < n {
        let w = text.substring_char(start, n).to_owned();
        assert(w@ == s.subrange(start as int, n as int));
        out.push(w);
    }
    assert(texts(out@) =~= before + flush(s.subrange(start as int, n as int)));
    out
}

/// Whether the host has said how a word reads, where that matters.
pub open spec fn known_word(w: Seq<char>, facts: Facts) -> bool {
    w == seq!['('] || w == seq![')'] || facts.numeral(w) is Some
}

/// `t` is the token for the word `w`: a parenthesis, a number where the
/// word reads as one, else a symbol holding the word.
pub open spec fn token_for(t: Token, w: Seq<char>, facts: Facts) -> bool {
    if w == seq!['('] {
        t is OpenParen
    } else if w == seq![')'] {
        t is CloseParen
    } else {
        match facts.numeral(w) {
            Some(Some(bits)) => t == Token::Number(bits),
            Some(None) => t is Symbol && t->Symbol_0@ == w,
            None => false,
        }
    }
}

/// Whether `s` and `t` hold the same characters.
pub fn text_is(s: &str, t: &str) -> (r: bool)
    ensures
        r == (s@ == t@),
{
    let n = s.unicode_len();
    if n != t.unicode_len() {
        return false;
    }
    let mut i: usize = 0;
    while i < n
        invariant
            n == s@.len(),
            n == t@.len(),
            i <= n,
            forall|k: int| 0 <= k < i ==> s@[k] == t@[k],
        decreases n - i,
    {
        if s.get_char(i) != t.get_char(i) {
            return false;
        }
        i += 1;
    }
    assert(s@ =~= t@);
    true
}

/// Whether `w` is one character long and that character is `c`.
fn is_char(w: &String, c: char) -> (r: bool)
    ensures
        r == (w@ == seq![c]),
{
    let s = w.as_str();
    if s.unicode_len() == 1 {
        let d = s.get_char(0);
        assert(d == c ==> s@ =~= seq![c]);
        d == c
    } else {
        false
    }
}

/// Whether the host has said how each word of `text` reads, where that matters.
pub open spec fn all_known(text: Seq<char>, facts: Facts) -> bool {
    forall|k: int| 0 <= k < words_of(text).len() ==> known_word(#[trigger] words_of(text)[k], facts)
}

/// `ts` are the tokens of the words of `text`.
pub open spec fn tokenized(ts: Vec<Token>, text: Seq<char>, facts: Facts) -> bool {
    ts@.len() == words_of(text).len() && forall|k: int|
        0 <= k < ts@.len() ==> token_for(#[trigger] ts@[k], words_of(text)[k], facts)
}

/// `q` asks how the first word of `text` reads whose reading is not known.
pub open spec fn stuck_at(q: Query, text: Seq<char>, facts: Facts) -> bool {
    q is Numeral && exists|k: int|
        0 <= k < words_of(text).len() && words_of(text)[k] == q->Numeral_0@
            && !known_word(words_of(text)[k], facts)
            && forall|j: int| 0 <= j < k ==> known_word(#[trigger] words_of(text)[j], facts)
}

/// Converts a text into tokens. Stops with the first word whose reading as
/// a numeral the host has not supplied yet.
pub fn tokenize(text: &str, facts: &Facts) -> (r: Result<Vec<Token>, Query>)
    ensures
        r is Ok <==> all_known(text@, *facts),
        r matches Ok(ts) ==> tokenized(ts, text@, *facts),
        r matches Err(q) ==> stuck_at(q, text@, *facts),
{
    let ws = words(text);
    let ghost wv = words_of(text@);
    assert(forall|k: int| 0 <= k < ws@.len() ==> ws@[k]@ == #[trigger] wv[k]) by {
        assert forall|k: int| 0 <= k < ws@.len() implies ws@[k]@ == #[trigger] wv[k] by {
            assert(texts(ws@)[k] == ws@[k]@);
        }
    }
    let mut tokens: Vec<Token> = Vec::new();
    let mut i: usize = 0;
    while i < ws.len()
        invariant
            wv == words_of(text@),
            ws@.len() == wv.len(),
            forall|k: int| 0 <= k < ws@.len() ==> ws@[k]@ == #[trigger] wv[k],
            i <= ws@.len(),
            tokens@.len() == i,
            forall|k: int| 0 <= k < i ==> known_word(#[trigger] wv[k], *facts),
            forall|k: int| 0 <= k < i ==> token_for(#[trigger] tokens@[k], wv[k], *facts),
        decreases ws@.len() - i,
    {
        let w = &ws[i];
        assert(w@ == wv[i as int]);
        if is_char(w, '(') {
            tokens.push(Token::OpenParen);
        } else if is_char(w, ')') {
            tokens.push(Token::CloseParen);
        } else {
            match facts.numeral_of(w) {
                Some(Some(bits)) => tokens.push(Token::Number(bits)),
                Some(None) => tokens.push(Token::Symbol(w.clone())),
                None => {
                    return Err(Query::Numeral(w.clone()));
                },
            }
        }
        i += 1;
    }
    Ok(tokens)
}

} // verus!
