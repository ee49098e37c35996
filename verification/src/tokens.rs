//! The token model that the macros read and write: a flat sequence in which
//! each delimited group stands as an opening marker, its contents and a
//! closing marker.

use vstd::prelude::*;

verus! {

/// The delimiter of a group.
#[derive(Clone, Copy, Debug, PartialEq, Eq, Structural)]
pub enum Delim {
    Paren,
    Brace,
    Bracket,
}

/// One token. `Punct` carries its character and whether it is joined to
/// the punctuation character that follows it (as in `->` or `::`).
#[derive(Clone, Debug, PartialEq, Eq)]
pub enum Tok {
    Ident(String),
    Punct(char, bool),
    Lit(String),
    Open(Delim),
    Close(Delim),
}

/// The mathematical value of a token.
pub enum TokV {
    Ident(Seq<char>),
    Punct(char, bool),
    Lit(Seq<char>),
    Open(Delim),
    Close(Delim),
}

impl View for Tok {
    type V = TokV;

    open spec fn view(&self) -> TokV {
        match self {
            Tok::Ident(s) => TokV::Ident(s@),
            Tok::Punct(c, j) => TokV::Punct(*c, *j),
            Tok::Lit(s) => TokV::Lit(s@),
            Tok::Open(d) => TokV::Open(*d),
            Tok::Close(d) => TokV::Close(*d),
        }
    }
}

/// The value of a token sequence.
pub open spec fn toks_v(s: Seq<Tok>) -> Seq<TokV> {
    s.map_values(|t: Tok| t@)
}

impl Tok {
    /// A copy of the token with the same value.
    pub fn copy(&self) -> (r: Tok)
        ensures
            r@ == self@,
    {
        match self {
            Tok::Ident(s) => Tok::Ident(s.clone()),
            Tok::Punct(c, j) => Tok::Punct(*c, *j),
            Tok::Lit(s) => Tok::Lit(s.clone()),
            Tok::Open(d) => Tok::Open(*d),
            Tok::Close(d) => Tok::Close(*d),
        }
    }

    /// Whether two tokens have the same value.
    pub fn same(&self, other: &Tok) -> (r: bool)
        ensures
            r == (self@ == other@),
    {
        match self {
            Tok::Ident(a) => match other {
                Tok::Ident(b) => *a == *b,
                _ => false,
            },
            Tok::Punct(a, x) => match other {
                Tok::Punct(b, y) => *a == *b && *x == *y,
                _ => false,
            },
            Tok::Lit(a) => match other {
                Tok::Lit(b) => *a == *b,
                _ => false,
            },
            Tok::Open(a) => match other {
                Tok::Open(b) => *a == *b,
                _ => false,
            },
            Tok::Close(a) => match other {
                Tok::Close(b) => *a == *b,
                _ => false,
            },
        }
    }
}

/// A copy of the tokens `a..b` of `s`.
pub fn copy_range(s: &Vec<Tok>, a: usize, b: usize) -> (r: Vec<Tok>)
    requires
        a <= b <= s.len(),
    ensures
        toks_v(r@) == toks_v(s@).subrange(a as int, b as int),
{
    let mut r: Vec<Tok> = Vec::new();
    let mut k = a;
    while k < b
        invariant
            a <= k <= b <= s.len(),
            toks_v(r@) =~= toks_v(s@).subrange(a as int, k as int),
        decreases b - k,
    {
        let t = s[k].copy();
        let ghost before = r@;
        r.push(t);
        assert(toks_v(r@) =~= toks_v(before).push(t@));
        k = k + 1;
    }
    r
}

/// Appends copies of the tokens of `src` to `dst`.
pub fn push_all(dst: &mut Vec<Tok>, src: &Vec<Tok>)
    ensures
        toks_v(final(dst)@) == toks_v(old(dst)@) + toks_v(src@),
{
    let ghost start = toks_v(dst@);
    let mut k: usize = 0;
    while k < src.len()
        invariant
            k <= src.len(),
            toks_v(dst@) =~= start + toks_v(src@).subrange(0, k as int),
        decreases src.len() - k,
    {
        let t = src[k].copy();
        let ghost before = dst@;
        dst.push(t);
        assert(toks_v(dst@) =~= toks_v(before).push(t@));
        k = k + 1;
    }
    assert(toks_v(src@).subrange(0, src.len() as int) =~= toks_v(src@));
}

/// The values of a sequence of strings.
pub open spec fn strs_v(s: Seq<String>) -> Seq<Seq<char>> {
    s.map_values(|x: String| x@)
}

} // verus!
