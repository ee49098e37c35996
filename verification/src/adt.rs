//! The `adt!` macro: its grammar, read into an algebraic data type
//! definition, and the expansion of that definition into an enum with
//! conversions and a dispatching trait implementation.
//!
//! ```text
//! <enum-type> = <type> | <type> ... [ derive <trait>, ... ]
//!     [ with <trait-name> [ <generics> ] [ where ... ] { <trait-function>; ... } ]
//! ```

use crate::grammar::{
    ParseError, ParseErrorV, close_of, find_close, ident_at, is_punct, is_word, punct_at,
    read_ident, render, render_v, res_v, same_shape, step_after, step_after_exec, whole,
    whole_v, word_at,
};
use crate::syntax::{
    generics_rest, lex, lexed, signature_inputs, signature_texts, syn_generics_rest,
    syn_signature_inputs, syn_signature_texts, syn_trait_fn_rest, syn_trait_fn_texts,
    syn_where_rest, text_result, trait_fn_rest, trait_fn_texts, where_rest,
};
use crate::tokens::{Delim, Tok, TokV, copy_range, push_all, strs_v, toks_v};
use vstd::prelude::*;

verus! {

// ---------------------------------------------------------------------------
// The definition read from the input

/// The type parameters of an element type, as in `Elem<A, B>`.
pub struct ElementTypeParam {
    pub params: Vec<String>,
    /// The tokens from `<` to `>`.
    pub tokens: Vec<Tok>,
}

pub struct ElementTypeParamV {
    pub params: Seq<Seq<char>>,
    pub tokens: Seq<TokV>,
}

impl View for ElementTypeParam {
    type V = ElementTypeParamV;

    open spec fn view(&self) -> ElementTypeParamV {
        ElementTypeParamV { params: strs_v(self.params@), tokens: toks_v(self.tokens@) }
    }
}

/// One element type of the data type.
pub struct ElementType {
    pub ident: String,
    pub type_param: Option<ElementTypeParam>,
}

pub struct ElementTypeV {
    pub ident: Seq<char>,
    pub type_param: Option<ElementTypeParamV>,
}

impl View for ElementType {
    type V = ElementTypeV;

    open spec fn view(&self) -> ElementTypeV {
        ElementTypeV {
            ident: self.ident@,
            type_param: match self.type_param {
                Some(p) => Some(p@),
                None => None,
            },
        }
    }
}

/// The tokens of an element type: its name and its type parameters.
pub open spec fn element_tokens(e: ElementTypeV) -> Seq<TokV> {
    seq![TokV::Ident(e.ident)] + match e.type_param {
        Some(p) => p.tokens,
        None => Seq::empty(),
    }
}

/// The traits named after `derive`.
pub struct AdtDeriveType {
    pub derives: Vec<String>,
    /// The tokens of the list, commas included.
    pub tokens: Vec<Tok>,
}

pub struct AdtDeriveTypeV {
    pub derives: Seq<Seq<char>>,
    pub tokens: Seq<TokV>,
}

impl View for AdtDeriveType {
    type V = AdtDeriveTypeV;

    open spec fn view(&self) -> AdtDeriveTypeV {
        AdtDeriveTypeV { derives: strs_v(self.derives@), tokens: toks_v(self.tokens@) }
    }
}

// ---------------------------------------------------------------------------
// Comma-separated identifiers

/// The identifiers `, x` that follow position `i`, added to `acc`.
pub open spec fn idents_from(s: Seq<TokV>, i: int, acc: Seq<Seq<char>>) -> Result<(Seq<Seq<char>>, int), ParseErrorV>
    decreases s.len() - i,
{
    if punct_at(s, i, ',') {
        match ident_at(s, i + 1) {
            Ok(x) => idents_from(s, i + 2, acc.push(x)),
            Err(e) => Err(e),
        }
    } else {
        Ok((acc, i))
    }
}

/// A comma-separated list of identifiers at `i`, with no trailing comma.
pub open spec fn punct_idents(s: Seq<TokV>, i: int) -> Result<(Seq<Seq<char>>, int), ParseErrorV> {
    match ident_at(s, i) {
        Ok(x) => idents_from(s, i + 1, seq![x]),
        Err(e) => Err(e),
    }
}

pub proof fn lemma_idents_from_bounds(s: Seq<TokV>, i: int, acc: Seq<Seq<char>>)
    requires
        0 <= i <= s.len(),
    ensures
        idents_from(s, i, acc) matches Ok((_, j)) ==> i <= j <= s.len(),
    decreases s.len() - i,
{
    if punct_at(s, i, ',') {
        if let Ok(x) = ident_at(s, i + 1) {
            lemma_idents_from_bounds(s, i + 2, acc.push(x));
        }
    }
}

pub proof fn lemma_punct_idents_bounds(s: Seq<TokV>, i: int)
    ensures
        punct_idents(s, i) matches Ok((_, j)) ==> 0 <= i < j <= s.len(),
{
    if let Ok(x) = ident_at(s, i) {
        lemma_idents_from_bounds(s, i + 1, seq![x]);
    }
}

fn parse_punct_idents(s: &Vec<Tok>, i: usize) -> (r: Result<(Vec<String>, usize), ParseError>)
    ensures
        match r {
            Ok((v, j)) => punct_idents(toks_v(s@), i as int) == Ok::<(Seq<Seq<char>>, int), ParseErrorV>((strs_v(v@), j as int)),
            Err(e) => punct_idents(toks_v(s@), i as int) == Err::<(Seq<Seq<char>>, int), ParseErrorV>(e@),
        },
{
    let ghost sv = toks_v(s@);
    let first = match read_ident(s, i) {
        Ok(x) => x,
        Err(e) => return Err(e),
    };
    let mut acc: Vec<String> = Vec::new();
    acc.push(first);
    let mut j = i + 1;
    assert(strs_v(acc@) =~= seq![first@]);
    while is_punct(s, j, ',')
        invariant
            i < j <= s.len(),
            sv == toks_v(s@),
            idents_from(sv, j as int, strs_v(acc@)) == punct_idents(sv, i as int),
        decreases s.len() - j,
    {
        match read_ident(s, j + 1) {
            Ok(x) => {
                let ghost before = strs_v(acc@);
                acc.push(x);
                assert(strs_v(acc@) =~= before.push(x@));
                j = j + 2;
            },
            Err(e) => return Err(e),
        }
    }
    Ok((acc, j))
}

// ---------------------------------------------------------------------------
// Element types

/// Type parameters `<A, B, ...>` at `i`.
pub open spec fn element_param(s: Seq<TokV>, i: int) -> Result<(ElementTypeParamV, int), ParseErrorV> {
    if !punct_at(s, i, '<') {
        Err(ParseErrorV::ExpectedPunct('<'))
    } else {
        match punct_idents(s, i + 1) {
            Ok((ps, j)) => if punct_at(s, j, '>') {
                Ok((ElementTypeParamV { params: ps, tokens: s.subrange(i, j + 1) }, j + 1))
            } else {
                Err(ParseErrorV::ExpectedPunct('>'))
            },
            Err(e) => Err(e),
        }
    }
}

/// An element type at `i`: a name, then type parameters where `<` follows.
pub open spec fn element(s: Seq<TokV>, i: int) -> Result<(ElementTypeV, int), ParseErrorV> {
    match ident_at(s, i) {
        Ok(x) => if punct_at(s, i + 1, '<') {
            match element_param(s, i + 1) {
                Ok((p, j)) => Ok((ElementTypeV { ident: x, type_param: Some(p) }, j)),
                Err(e) => Err(e),
            }
        } else {
            Ok((ElementTypeV { ident: x, type_param: None }, i + 1))
        },
        Err(e) => Err(e),
    }
}

pub proof fn lemma_element_bounds(s: Seq<TokV>, i: int)
    ensures
        element(s, i) matches Ok((_, j)) ==> 0 <= i < j <= s.len(),
{
    if punct_at(s, i + 1, '<') {
        lemma_punct_idents_bounds(s, i + 2);
    }
}

impl ElementTypeParam {
    fn parse_at(s: &Vec<Tok>, i: usize) -> (r: Result<(ElementTypeParam, usize), ParseError>)
        ensures
            res_v(r) == element_param(toks_v(s@), i as int),
    {
        proof {
            lemma_punct_idents_bounds(toks_v(s@), i + 1);
        }
        if !is_punct(s, i, '<') {
            return Err(ParseError::ExpectedPunct('<'));
        }
        match parse_punct_idents(s, i + 1) {
            Ok((ps, j)) => if is_punct(s, j, '>') {
                let tokens = copy_range(s, i, j + 1);
                Ok((ElementTypeParam { params: ps, tokens }, j + 1))
            } else {
                Err(ParseError::ExpectedPunct('>'))
            },
            Err(e) => Err(e),
        }
    }

    /// Reads type parameters `<A, B, ...>` that make up the whole input.
    pub fn parse(s: &Vec<Tok>) -> (r: Result<ElementTypeParam, ParseError>)
        ensures
            whole_v(r) == whole(element_param(toks_v(s@), 0), s.len() as int),
    {
        match Self::parse_at(s, 0) {
            Ok((p, j)) => if j == s.len() {
                Ok(p)
            } else {
                Err(ParseError::UnexpectedToken)
            },
            Err(e) => Err(e),
        }
    }

    /// The tokens from `<` to `>`.
    pub fn to_tokens(&self) -> (r: Vec<Tok>)
        ensures
            toks_v(r@) == self@.tokens,
    {
        copy_range(&self.tokens, 0, self.tokens.len())
    }
}

impl ElementType {
    fn parse_at(s: &Vec<Tok>, i: usize) -> (r: Result<(ElementType, usize), ParseError>)
        ensures
            res_v(r) == element(toks_v(s@), i as int),
    {
        let ident = match read_ident(s, i) {
            Ok(x) => x,
            Err(e) => return Err(e),
        };
        if is_punct(s, i + 1, '<') {
            match ElementTypeParam::parse_at(s, i + 1) {
                Ok((p, j)) => Ok((ElementType { ident, type_param: Some(p) }, j)),
                Err(e) => Err(e),
            }
        } else {
            Ok((ElementType { ident, type_param: None }, i + 1))
        }
    }

    /// Reads an element type that makes up the whole input.
    pub fn parse(s: &Vec<Tok>) -> (r: Result<ElementType, ParseError>)
        ensures
            whole_v(r) == whole(element(toks_v(s@), 0), s.len() as int),
    {
        match Self::parse_at(s, 0) {
            Ok((e, j)) => if j == s.len() {
                Ok(e)
            } else {
                Err(ParseError::UnexpectedToken)
            },
            Err(e) => Err(e),
        }
    }

    /// The tokens of the element type: its name and its type parameters.
    pub fn to_tokens(&self) -> (r: Vec<Tok>)
        ensures
            toks_v(r@) == element_tokens(self@),
    {
        let mut r: Vec<Tok> = Vec::new();
        r.push(Tok::Ident(self.ident.clone()));
        assert(toks_v(r@) =~= seq![TokV::Ident(self.ident@)]);
        match &self.type_param {
            Some(p) => push_all(&mut r, &p.tokens),
            None => {},
        }
        assert(toks_v(r@) =~= element_tokens(self@));
        r
    }
}

// ---------------------------------------------------------------------------
// Generic parameters and `where` clauses, read by syn

/// One generic parameter: the tokens of its name (an identifier, or a
/// lifetime) and of its whole declaration, bounds included.
pub struct GenericParam {
    pub name: Vec<Tok>,
    pub decl: Vec<Tok>,
}

pub struct GenericParamV {
    pub name: Seq<TokV>,
    pub decl: Seq<TokV>,
}

impl View for GenericParam {
    type V = GenericParamV;

    open spec fn view(&self) -> GenericParamV {
        GenericParamV { name: toks_v(self.name@), decl: toks_v(self.decl@) }
    }
}

pub open spec fn params_v(ps: Seq<GenericParam>) -> Seq<GenericParamV> {
    ps.map_values(|p: GenericParam| p@)
}

/// Generic parameters `<...>`: each parameter, and the tokens as written.
pub struct Generics {
    pub params: Vec<GenericParam>,
    pub tokens: Vec<Tok>,
}

pub struct GenericsV {
    pub params: Seq<GenericParamV>,
    pub tokens: Seq<TokV>,
}

impl View for Generics {
    type V = GenericsV;

    open spec fn view(&self) -> GenericsV {
        GenericsV { params: params_v(self.params@), tokens: toks_v(self.tokens@) }
    }
}

pub open spec fn opt_generics_v(g: Option<Generics>) -> Option<GenericsV> {
    match g {
        Some(x) => Some(x@),
        None => None,
    }
}

pub open spec fn opt_toks_v(o: Option<Vec<Tok>>) -> Option<Seq<TokV>> {
    match o {
        Some(v) => Some(toks_v(v@)),
        None => None,
    }
}

/// The name and declaration texts of each parameter, tokenized.
pub open spec fn lex_params(p: Seq<(Seq<char>, Seq<char>)>) -> Option<Seq<GenericParamV>>
    decreases p.len(),
{
    if p.len() == 0 {
        Some(Seq::empty())
    } else {
        match lex_params(p.drop_last()) {
            None => None,
            Some(acc) => match (lexed(p.last().0), lexed(p.last().1)) {
                (Some(n), Some(d)) => Some(acc.push(GenericParamV { name: n, decl: d })),
                _ => None,
            },
        }
    }
}

/// Generic parameters at `i` where `<` stands there, as `syn` reads them.
pub open spec fn generics_at(s: Seq<TokV>, i: int) -> Result<(Option<GenericsV>, int), ParseErrorV> {
    if punct_at(s, i, '<') {
        match generics_rest(render_v(s.subrange(i, s.len() as int))) {
            Ok((ps, rest)) => match step_after(Ok(rest), s, i) {
                Ok(k) => match lex_params(ps) {
                    Some(params) => Ok((Some(GenericsV { params, tokens: s.subrange(i, k) }), k)),
                    None => Err(ParseErrorV::Unrecognized),
                },
                Err(e) => Err(e),
            },
            Err(m) => Err(ParseErrorV::Syntax(m)),
        }
    } else {
        Ok((None, i))
    }
}

pub proof fn lemma_lex_params_none(p: Seq<(Seq<char>, Seq<char>)>, n: int, m: int)
    requires
        0 <= n <= m <= p.len(),
        lex_params(p.subrange(0, n)) is None,
    ensures
        lex_params(p.subrange(0, m)) is None,
    decreases m - n,
{
    if m > n {
        lemma_lex_params_none(p, n, m - 1);
        assert(p.subrange(0, m).drop_last() =~= p.subrange(0, m - 1));
    }
}

fn lex_param_texts(ps: &Vec<(String, String)>) -> (r: Option<Vec<GenericParam>>)
    ensures
        r matches Some(v) ==> lex_params(crate::syntax::pair_texts_view(ps@)) == Some(params_v(v@)),
        r is None ==> lex_params(crate::syntax::pair_texts_view(ps@)) is None,
{
    let ghost pv = crate::syntax::pair_texts_view(ps@);
    let mut out: Vec<GenericParam> = Vec::new();
    let mut k: usize = 0;
    assert(pv.subrange(0, 0) =~= Seq::<(Seq<char>, Seq<char>)>::empty());
    assert(params_v(out@) =~= Seq::<GenericParamV>::empty());
    while k < ps.len()
        invariant
            k <= ps.len(),
            pv == crate::syntax::pair_texts_view(ps@),
            lex_params(pv.subrange(0, k as int)) == Some(params_v(out@)),
        decreases ps.len() - k,
    {
        assert(pv.subrange(0, k + 1).drop_last() =~= pv.subrange(0, k as int));
        assert(pv.subrange(0, k + 1).last() == pv[k as int]);
        let n = lex(ps[k].0.as_str());
        let d = lex(ps[k].1.as_str());
        match (n, d) {
            (Some(n), Some(d)) => {
                let ghost before = params_v(out@);
                let p = GenericParam { name: n, decl: d };
                let ghost pw = p@;
                out.push(p);
                assert(params_v(out@) =~= before.push(pw));
            },
            _ => {
                proof {
                    lemma_lex_params_none(pv, k + 1, pv.len() as int);
                    assert(pv.subrange(0, pv.len() as int) =~= pv);
                }
                return None;
            },
        }
        k = k + 1;
    }
    assert(pv.subrange(0, ps.len() as int) =~= pv);
    Some(out)
}

/// A `where` clause at `i` where the word `where` stands there, as `syn`
/// reads it.
pub open spec fn where_at(s: Seq<TokV>, i: int) -> Result<(Option<Seq<TokV>>, int), ParseErrorV> {
    if word_at(s, i, "where"@) {
        match step_after(where_rest(render_v(s.subrange(i, s.len() as int))), s, i) {
            Ok(k) => Ok((Some(s.subrange(i, k)), k)),
            Err(e) => Err(e),
        }
    } else {
        Ok((None, i))
    }
}

pub proof fn lemma_step_after_bounds(rest: Result<Seq<char>, Seq<char>>, s: Seq<TokV>, i: int)
    requires
        0 <= i <= s.len(),
    ensures
        step_after(rest, s, i) matches Ok(k) ==> i <= k <= s.len(),
{
}

fn parse_generics_at(s: &Vec<Tok>, i: usize) -> (r: Result<(Option<Generics>, usize), ParseError>)
    requires
        i <= s.len(),
    ensures
        match r {
            Ok((g, j)) => generics_at(toks_v(s@), i as int) == Ok::<(Option<GenericsV>, int), ParseErrorV>((opt_generics_v(g), j as int)),
            Err(e) => generics_at(toks_v(s@), i as int) == Err::<(Option<GenericsV>, int), ParseErrorV>(e@),
        },
        r matches Ok((_, j)) ==> i <= j <= s.len(),
{
    if !is_punct(s, i, '<') {
        return Ok((None, i));
    }
    let text = render(s, i);
    match syn_generics_rest(text.as_str()) {
        Ok((ps, rest)) => {
            let ghost rv: Result<Seq<char>, Seq<char>> = Ok(rest@);
            match step_after_exec(Ok(rest), s, i) {
                Ok(k) => {
                    proof { lemma_step_after_bounds(rv, toks_v(s@), i as int); }
                    match lex_param_texts(&ps) {
                        Some(params) => {
                            let tokens = copy_range(s, i, k);
                            Ok((Some(Generics { params, tokens }), k))
                        },
                        None => Err(ParseError::Unrecognized),
                    }
                },
                Err(e) => Err(e),
            }
        },
        Err(m) => Err(ParseError::Syntax(m)),
    }
}

fn parse_where_at(s: &Vec<Tok>, i: usize) -> (r: Result<(Option<Vec<Tok>>, usize), ParseError>)
    requires
        i <= s.len(),
    ensures
        match r {
            Ok((w, j)) => where_at(toks_v(s@), i as int) == Ok::<(Option<Seq<TokV>>, int), ParseErrorV>((opt_toks_v(w), j as int)),
            Err(e) => where_at(toks_v(s@), i as int) == Err::<(Option<Seq<TokV>>, int), ParseErrorV>(e@),
        },
        r matches Ok((_, j)) ==> i <= j <= s.len(),
{
    if !is_word(s, i, "where") {
        return Ok((None, i));
    }
    let text = render(s, i);
    let rest = syn_where_rest(text.as_str());
    let ghost rv = text_result(rest);
    match step_after_exec(rest, s, i) {
        Ok(k) => {
            proof { lemma_step_after_bounds(rv, toks_v(s@), i as int); }
            let w = copy_range(s, i, k);
            Ok((Some(w), k))
        },
        Err(e) => Err(e),
    }
}

// ---------------------------------------------------------------------------
// Method signatures and trait methods, read by syn

/// A method signature, split where the return type starts.
pub struct Signature {
    pub name: String,
    /// From the qualifiers and `fn` to the closing parenthesis of the
    /// parameters.
    pub head: Vec<Tok>,
    /// `-> T`, or nothing.
    pub output: Vec<Tok>,
    /// The `where` clause, or nothing.
    pub where_clause: Vec<Tok>,
    /// The receiver, if any, as (taken by reference, mutable).
    pub receiver: Option<(bool, bool)>,
    /// For each parameter, its pattern; `None` for the receiver.
    pub args: Vec<Option<Vec<Tok>>>,
}

pub struct SignatureV {
    pub name: Seq<char>,
    pub head: Seq<TokV>,
    pub output: Seq<TokV>,
    pub where_clause: Seq<TokV>,
    pub receiver: Option<(bool, bool)>,
    pub args: Seq<Option<Seq<TokV>>>,
}

pub open spec fn args_v(a: Seq<Option<Vec<Tok>>>) -> Seq<Option<Seq<TokV>>> {
    a.map_values(|o: Option<Vec<Tok>>| opt_toks_v(o))
}

impl View for Signature {
    type V = SignatureV;

    open spec fn view(&self) -> SignatureV {
        SignatureV {
            name: self.name@,
            head: toks_v(self.head@),
            output: toks_v(self.output@),
            where_clause: toks_v(self.where_clause@),
            receiver: self.receiver,
            args: args_v(self.args@),
        }
    }
}

/// The tokens of a signature.
pub open spec fn signature_tokens(g: SignatureV) -> Seq<TokV> {
    g.head + g.output + g.where_clause
}

/// Each present pattern text, tokenized.
pub open spec fn lex_each(p: Seq<Option<Seq<char>>>) -> Option<Seq<Option<Seq<TokV>>>>
    decreases p.len(),
{
    if p.len() == 0 {
        Some(Seq::empty())
    } else {
        match lex_each(p.drop_last()) {
            None => None,
            Some(acc) => match p.last() {
                None => Some(acc.push(None)),
                Some(t) => match lexed(t) {
                    Some(v) => Some(acc.push(Some(v))),
                    None => None,
                },
            },
        }
    }
}

/// A signature from what `syn` gives for it: the printed signature, return
/// type part, `where` clause and name (`texts`), and the receiver and
/// parameter patterns (`inputs`); the printed tokens are split where the
/// printed return type and `where` clause start.
pub open spec fn signature_from(
    texts: (Seq<char>, Seq<char>, Seq<char>, Seq<char>),
    inputs: Option<(Option<(bool, bool)>, Seq<Option<Seq<char>>>)>,
) -> Option<SignatureV> {
    let (st, ot, wt, name) = texts;
    match inputs {
        Some((rc, pats)) => match (lexed(st), lexed(ot), lexed(wt), lex_each(pats)) {
            (Some(sg), Some(out), Some(wh), Some(args)) => {
                let n = out.len() + wh.len();
                if n <= sg.len() && same_shape(sg.subrange(sg.len() - n, sg.len() as int), out + wh) {
                    Some(SignatureV {
                        name,
                        head: sg.subrange(0, sg.len() - n),
                        output: out,
                        where_clause: wh,
                        receiver: rc,
                        args,
                    })
                } else {
                    None
                }
            },
            _ => None,
        },
        None => None,
    }
}

/// The signature that `syn` reads in `text`.
pub open spec fn signature_of(text: Seq<char>) -> Result<SignatureV, ParseErrorV> {
    match signature_texts(text) {
        Err(m) => Err(ParseErrorV::Syntax(m)),
        Ok(t) => match signature_from(t, signature_inputs(text)) {
            Some(g) => Ok(g),
            None => Err(ParseErrorV::Unrecognized),
        },
    }
}

pub open spec fn inputs_v(i: Option<(Option<(bool, bool)>, Vec<Option<String>>)>) -> Option<(Option<(bool, bool)>, Seq<Option<Seq<char>>>)> {
    match i {
        Some((rc, ps)) => Some((rc, crate::syntax::opt_texts_view(ps@))),
        None => None,
    }
}

pub proof fn lemma_lex_each_none(p: Seq<Option<Seq<char>>>, n: int, m: int)
    requires
        0 <= n <= m <= p.len(),
        lex_each(p.subrange(0, n)) is None,
    ensures
        lex_each(p.subrange(0, m)) is None,
    decreases m - n,
{
    if m > n {
        lemma_lex_each_none(p, n, m - 1);
        assert(p.subrange(0, m).drop_last() =~= p.subrange(0, m - 1));
    }
}

fn lex_patterns(ps: &Vec<Option<String>>) -> (r: Option<Vec<Option<Vec<Tok>>>>)
    ensures
        r matches Some(v) ==> lex_each(crate::syntax::opt_texts_view(ps@)) == Some(args_v(v@)),
        r is None ==> lex_each(crate::syntax::opt_texts_view(ps@)) is None,
{
    let ghost pv = crate::syntax::opt_texts_view(ps@);
    let mut out: Vec<Option<Vec<Tok>>> = Vec::new();
    let mut k: usize = 0;
    assert(pv.subrange(0, 0) =~= Seq::<Option<Seq<char>>>::empty());
    while k < ps.len()
        invariant
            k <= ps.len(),
            pv == crate::syntax::opt_texts_view(ps@),
            lex_each(pv.subrange(0, k as int)) == Some(args_v(out@)),
        decreases ps.len() - k,
    {
        assert(pv.subrange(0, k + 1).drop_last() =~= pv.subrange(0, k as int));
        let ghost before = args_v(out@);
        match &ps[k] {
            None => {
                out.push(None);
            },
            Some(t) => match lex(t.as_str()) {
                Some(v) => {
                    out.push(Some(v));
                },
                None => {
                    proof {
                        lemma_lex_each_none(pv, k + 1, pv.len() as int);
                        assert(pv.subrange(0, pv.len() as int) =~= pv);
                    }
                    return None;
                },
            },
        }
        assert(args_v(out@) =~= before.push(args_v(out@).last()));
        k = k + 1;
    }
    assert(pv.subrange(0, ps.len() as int) =~= pv);
    Some(out)
}

impl Signature {
    /// The signature from what `syn` gives for it (see `signature_from`).
    pub fn from_texts(
        texts: (String, String, String, String),
        inputs: Option<(Option<(bool, bool)>, Vec<Option<String>>)>,
    ) -> (r: Option<Signature>)
        ensures
            r matches Some(g) ==> signature_from((texts.0@, texts.1@, texts.2@, texts.3@), inputs_v(inputs)) == Some(g@),
            r is None ==> signature_from((texts.0@, texts.1@, texts.2@, texts.3@), inputs_v(inputs)) is None,
    {
        let (st, ot, wt, name) = texts;
        let (rc, pats) = match inputs {
            Some(t) => t,
            None => return None,
        };
        let sg = match lex(st.as_str()) {
            Some(v) => v,
            None => return None,
        };
        let out = match lex(ot.as_str()) {
            Some(v) => v,
            None => return None,
        };
        let wh = match lex(wt.as_str()) {
            Some(v) => v,
            None => return None,
        };
        let args = match lex_patterns(&pats) {
            Some(v) => v,
            None => return None,
        };
        if out.len() > sg.len() || wh.len() > sg.len() - out.len() {
            return None;
        }
        let n = out.len() + wh.len();
        let mut ow = copy_range(&out, 0, out.len());
        push_all(&mut ow, &wh);
        assert(toks_v(out@).subrange(0, out.len() as int) =~= toks_v(out@));
        if !crate::grammar::same_shape_from(&sg, sg.len() - n, &ow) {
            return None;
        }
        let head = copy_range(&sg, 0, sg.len() - n);
        Some(Signature { name, head, output: out, where_clause: wh, receiver: rc, args })
    }

    /// The signature that `syn` reads in `text`.
    fn from_text(text: &str) -> (r: Result<Signature, ParseError>)
        ensures
            whole_v(r) == signature_of(text@),
    {
        let texts = match syn_signature_texts(text) {
            Ok(t) => t,
            Err(m) => return Err(ParseError::Syntax(m)),
        };
        let inputs = syn_signature_inputs(text);
        match Self::from_texts(texts, inputs) {
            Some(g) => Ok(g),
            None => Err(ParseError::Unrecognized),
        }
    }

    /// Reads a method signature that makes up the whole input.
    pub fn parse(s: &Vec<Tok>) -> (r: Result<Signature, ParseError>)
        ensures
            whole_v(r) == signature_of(render_v(toks_v(s@))),
    {
        let text = render(s, 0);
        assert(toks_v(s@).subrange(0, s.len() as int) =~= toks_v(s@));
        Self::from_text(text.as_str())
    }

    /// The tokens of the signature.
    pub fn to_tokens(&self) -> (r: Vec<Tok>)
        ensures
            toks_v(r@) == signature_tokens(self@),
    {
        let mut r = copy_range(&self.head, 0, self.head.len());
        assert(toks_v(self.head@).subrange(0, self.head.len() as int) =~= toks_v(self.head@));
        push_all(&mut r, &self.output);
        push_all(&mut r, &self.where_clause);
        r
    }
}

/// A trait method: its attributes, signature, and body or `;`.
pub struct TraitFn {
    pub attrs: Vec<Tok>,
    pub sig: Signature,
    pub tail: Vec<Tok>,
}

pub struct TraitFnV {
    pub attrs: Seq<TokV>,
    pub sig: SignatureV,
    pub tail: Seq<TokV>,
}

impl View for TraitFn {
    type V = TraitFnV;

    open spec fn view(&self) -> TraitFnV {
        TraitFnV { attrs: toks_v(self.attrs@), sig: self.sig@, tail: toks_v(self.tail@) }
    }
}

pub open spec fn trait_fn_tokens(f: TraitFnV) -> Seq<TokV> {
    f.attrs + signature_tokens(f.sig) + f.tail
}

/// Past the attributes `#[...]` that start at `j`.
pub open spec fn attrs_end(s: Seq<TokV>, j: int) -> int
    decreases s.len() - j,
{
    if punct_at(s, j, '#') && j + 1 < s.len() && s[j + 1] == TokV::Open(Delim::Bracket) {
        match close_of(s, j + 2, 1) {
            Some(c) => if j + 2 <= c < s.len() {
                attrs_end(s, c + 1)
            } else {
                j
            },
            None => j,
        }
    } else {
        j
    }
}

pub proof fn lemma_attrs_end_bounds(s: Seq<TokV>, j: int)
    requires
        0 <= j <= s.len(),
    ensures
        j <= attrs_end(s, j) <= s.len(),
    decreases s.len() - j,
{
    if punct_at(s, j, '#') && j + 1 < s.len() && s[j + 1] == TokV::Open(Delim::Bracket) {
        if let Some(c) = close_of(s, j + 2, 1) {
            if j + 2 <= c < s.len() {
                lemma_attrs_end_bounds(s, c + 1);
            }
        }
    }
}

fn find_attrs_end(s: &Vec<Tok>) -> (r: usize)
    ensures
        r as int == attrs_end(toks_v(s@), 0),
{
    let ghost sv = toks_v(s@);
    let mut j: usize = 0;
    loop
        invariant
            j <= s.len(),
            sv == toks_v(s@),
            attrs_end(sv, j as int) == attrs_end(sv, 0),
        decreases s.len() - j,
    {
        if is_punct(s, j, '#') && j + 1 < s.len() {
            let is_open = match &s[j + 1] {
                Tok::Open(Delim::Bracket) => true,
                _ => false,
            };
            if is_open {
                match find_close(s, j + 1) {
                    Some(c) => {
                        if j + 2 <= c && c < s.len() {
                            j = c + 1;
                            continue;
                        }
                    },
                    None => {},
                }
            }
        }
        return j;
    }
}

/// A trait method from its printed tokens `f` and its signature `g`: the
/// tokens before the signature are its attributes, those after it its body
/// or `;`.
pub open spec fn trait_fn_split(f: Seq<TokV>, g: SignatureV) -> Option<TraitFnV> {
    let a = attrs_end(f, 0);
    let n = signature_tokens(g).len();
    if 0 <= a && a + n <= f.len() && same_shape(f.subrange(a, a + n), signature_tokens(g)) {
        Some(TraitFnV { attrs: f.subrange(0, a), sig: g, tail: f.subrange(a + n, f.len() as int) })
    } else {
        None
    }
}

/// The trait method that `syn` reads in the tokens `item`, from its printed
/// tokens and signature.
pub open spec fn trait_fn_of(item: Seq<TokV>) -> Option<TraitFnV> {
    match trait_fn_texts(render_v(item)) {
        Some((ft, st)) => match (lexed(ft), signature_of(st)) {
            (Some(f), Ok(g)) => trait_fn_split(f, g),
            _ => None,
        },
        None => None,
    }
}

impl TraitFn {
    /// The method from its printed tokens and its signature (see
    /// `trait_fn_split`).
    pub fn split(f: &Vec<Tok>, g: Signature) -> (r: Option<TraitFn>)
        ensures
            r matches Some(t) ==> trait_fn_split(toks_v(f@), g@) == Some(t@),
            r is None ==> trait_fn_split(toks_v(f@), g@) is None,
    {
        let a = find_attrs_end(f);
        proof { lemma_attrs_end_bounds(toks_v(f@), 0); }
        let sig = g.to_tokens();
        if sig.len() > f.len() - a {
            return None;
        }
        let n = sig.len();
        let mid = copy_range(f, a, a + n);
        assert(toks_v(mid@).subrange(0, mid.len() as int) =~= toks_v(mid@));
        if !crate::grammar::same_shape_from(&mid, 0, &sig) {
            return None;
        }
        let attrs = copy_range(f, 0, a);
        let tail = copy_range(f, a + n, f.len());
        Some(TraitFn { attrs, sig: g, tail })
    }

    fn from_item(item: &Vec<Tok>) -> (r: Option<TraitFn>)
        ensures
            r matches Some(f) ==> trait_fn_of(toks_v(item@)) == Some(f@),
            r is None ==> trait_fn_of(toks_v(item@)) is None,
    {
        let text = render(item, 0);
        assert(toks_v(item@).subrange(0, item.len() as int) =~= toks_v(item@));
        let (ft, st) = match syn_trait_fn_texts(text.as_str()) {
            Some(t) => t,
            None => return None,
        };
        let f = match lex(ft.as_str()) {
            Some(v) => v,
            None => return None,
        };
        let g = match Signature::from_text(st.as_str()) {
            Ok(g) => g,
            Err(_) => return None,
        };
        Self::split(&f, g)
    }

    /// The tokens of the method.
    pub fn to_tokens(&self) -> (r: Vec<Tok>)
        ensures
            toks_v(r@) == trait_fn_tokens(self@),
    {
        let mut r = copy_range(&self.attrs, 0, self.attrs.len());
        assert(toks_v(self.attrs@).subrange(0, self.attrs.len() as int) =~= toks_v(self.attrs@));
        let sig = self.sig.to_tokens();
        push_all(&mut r, &sig);
        push_all(&mut r, &self.tail);
        assert(toks_v(r@) =~= trait_fn_tokens(self@));
        r
    }
}

// ---------------------------------------------------------------------------
// The trait after `with`

/// The methods in the body tokens `b` from `j` on, added to `acc`.
pub open spec fn trait_fns(b: Seq<TokV>, j: int, acc: Seq<TraitFnV>) -> Result<Seq<TraitFnV>, ParseErrorV>
    decreases b.len() - j,
{
    if j < 0 || j >= b.len() {
        Ok(acc)
    } else {
        match step_after(trait_fn_rest(render_v(b.subrange(j, b.len() as int))), b, j) {
            Ok(k) => if j < k <= b.len() {
                match trait_fn_of(b.subrange(j, k)) {
                    Some(f) => trait_fns(b, k, acc.push(f)),
                    None => Err(ParseErrorV::Unrecognized),
                }
            } else {
                Err(ParseErrorV::Unrecognized)
            },
            Err(e) => Err(e),
        }
    }
}

/// Every method takes its receiver as `&self`.
pub open spec fn receivers_ok(fs: Seq<TraitFnV>) -> bool {
    forall|k: int| 0 <= k < fs.len() ==> #[trigger] fs[k].sig.receiver == Some((true, false))
}

/// The trait after `with`.
pub struct AdtTraitType {
    pub name: String,
    pub generics: Option<Generics>,
    pub where_clause: Option<Vec<Tok>>,
    pub functions: Vec<TraitFn>,
}

pub struct AdtTraitTypeV {
    pub name: Seq<char>,
    pub generics: Option<GenericsV>,
    pub where_clause: Option<Seq<TokV>>,
    pub functions: Seq<TraitFnV>,
}

pub open spec fn fns_v(fs: Seq<TraitFn>) -> Seq<TraitFnV> {
    fs.map_values(|f: TraitFn| f@)
}

impl View for AdtTraitType {
    type V = AdtTraitTypeV;

    open spec fn view(&self) -> AdtTraitTypeV {
        AdtTraitTypeV {
            name: self.name@,
            generics: opt_generics_v(self.generics),
            where_clause: opt_toks_v(self.where_clause),
            functions: fns_v(self.functions@),
        }
    }
}

/// The trait at `i` as read, before its receivers are looked at: its name,
/// generic parameters, `where` clause and the methods in its braces.
pub open spec fn trait_read(s: Seq<TokV>, i: int) -> Result<(AdtTraitTypeV, int), ParseErrorV> {
    match ident_at(s, i) {
        Err(e) => Err(e),
        Ok(name) => match generics_at(s, i + 1) {
            Err(e) => Err(e),
            Ok((g, j)) => match where_at(s, j) {
                Err(e) => Err(e),
                Ok((w, k)) => if 0 <= k < s.len() && s[k] == TokV::Open(Delim::Brace) {
                    match close_of(s, k + 1, 1) {
                        Some(c) => if k < c < s.len() {
                            match trait_fns(s.subrange(k + 1, c), 0, Seq::empty()) {
                                Ok(fs) => Ok((AdtTraitTypeV { name, generics: g, where_clause: w, functions: fs }, c + 1)),
                                Err(e) => Err(e),
                            }
                        } else {
                            Err(ParseErrorV::Unrecognized)
                        },
                        None => Err(ParseErrorV::Unrecognized),
                    }
                } else if k >= s.len() {
                    Err(ParseErrorV::BracesAtEnd)
                } else {
                    Err(ParseErrorV::ExpectedBraces)
                },
            },
        },
    }
}

/// The trait at `i`: the trait as read, where each of its methods takes
/// `&self`.
pub open spec fn trait_type(s: Seq<TokV>, i: int) -> Result<(AdtTraitTypeV, int), ParseErrorV> {
    match trait_read(s, i) {
        Ok((t, k)) => if receivers_ok(t.functions) {
            Ok((t, k))
        } else {
            Err(ParseErrorV::InvalidReceiver)
        },
        Err(e) => Err(e),
    }
}

fn parse_trait_fns(b: &Vec<Tok>) -> (r: Result<Vec<TraitFn>, ParseError>)
    ensures
        match r {
            Ok(fs) => trait_fns(toks_v(b@), 0, Seq::empty()) == Ok::<Seq<TraitFnV>, ParseErrorV>(fns_v(fs@)),
            Err(e) => trait_fns(toks_v(b@), 0, Seq::empty()) == Err::<Seq<TraitFnV>, ParseErrorV>(e@),
        },
{
    let ghost bv = toks_v(b@);
    let mut fs: Vec<TraitFn> = Vec::new();
    let mut j: usize = 0;
    assert(fns_v(fs@) =~= Seq::<TraitFnV>::empty());
    while j < b.len()
        invariant
            j <= b.len(),
            bv == toks_v(b@),
            trait_fns(bv, j as int, fns_v(fs@)) == trait_fns(bv, 0, Seq::empty()),
        decreases b.len() - j,
    {
        let text = render(b, j);
        let rest = syn_trait_fn_rest(text.as_str());
        let k = match step_after_exec(rest, b, j) {
            Ok(k) => k,
            Err(e) => return Err(e),
        };
        if k <= j || k > b.len() {
            return Err(ParseError::Unrecognized);
        }
        let item = copy_range(b, j, k);
        match TraitFn::from_item(&item) {
            Some(f) => {
                let ghost before = fns_v(fs@);
                fs.push(f);
                assert(fns_v(fs@) =~= before.push(f@));
            },
            None => return Err(ParseError::Unrecognized),
        }
        j = k;
    }
    Ok(fs)
}

fn check_receivers(fs: &Vec<TraitFn>) -> (r: bool)
    ensures
        r == receivers_ok(fns_v(fs@)),
{
    let ghost fv = fns_v(fs@);
    let mut k: usize = 0;
    while k < fs.len()
        invariant
            k <= fs.len(),
            fv == fns_v(fs@),
            forall|m: int| 0 <= m < k ==> #[trigger] fv[m].sig.receiver == Some((true, false)),
        decreases fs.len() - k,
    {
        let ok = match fs[k].sig.receiver {
            Some((by_ref, mutable)) => by_ref && !mutable,
            None => false,
        };
        if !ok {
            assert(fv[k as int].sig.receiver != Some((true, false)));
            return false;
        }
        k = k + 1;
    }
    true
}

impl AdtTraitType {
    fn parse_at(s: &Vec<Tok>, i: usize) -> (r: Result<(AdtTraitType, usize), ParseError>)
        requires
            i <= s.len(),
        ensures
            res_v(r) == trait_type(toks_v(s@), i as int),
            r matches Ok((_, j)) ==> i < j <= s.len(),
    {
        let name = match read_ident(s, i) {
            Ok(x) => x,
            Err(e) => return Err(e),
        };
        let (generics, j) = match parse_generics_at(s, i + 1) {
            Ok(t) => t,
            Err(e) => return Err(e),
        };
        let (where_clause, k) = match parse_where_at(s, j) {
            Ok(t) => t,
            Err(e) => return Err(e),
        };
        let is_brace = k < s.len() && match &s[k] {
            Tok::Open(Delim::Brace) => true,
            _ => false,
        };
        if !is_brace {
            if k >= s.len() {
                return Err(ParseError::BracesAtEnd);
            }
            return Err(ParseError::ExpectedBraces);
        }
        let c = match find_close(s, k) {
            Some(c) => c,
            None => return Err(ParseError::Unrecognized),
        };
        if c <= k || c >= s.len() {
            return Err(ParseError::Unrecognized);
        }
        let body = copy_range(s, k + 1, c);
        let functions = match parse_trait_fns(&body) {
            Ok(fs) => fs,
            Err(e) => return Err(e),
        };
        if !check_receivers(&functions) {
            return Err(ParseError::InvalidReceiver);
        }
        Ok((AdtTraitType { name, generics, where_clause, functions }, c + 1))
    }

    /// Reads the trait after `with` that makes up the whole input.
    pub fn parse(s: &Vec<Tok>) -> (r: Result<AdtTraitType, ParseError>)
        ensures
            whole_v(r) == whole(trait_type(toks_v(s@), 0), s.len() as int),
    {
        match Self::parse_at(s, 0) {
            Ok((t, j)) => if j == s.len() {
                Ok(t)
            } else {
                Err(ParseError::UnexpectedToken)
            },
            Err(e) => Err(e),
        }
    }
}

// ---------------------------------------------------------------------------
// The whole definition

/// An algebraic data type definition.
pub struct AdtType {
    pub name: String,
    pub generics: Option<Generics>,
    pub elements: Vec<ElementType>,
    pub derive_def: Option<AdtDeriveType>,
    pub trait_def: Option<AdtTraitType>,
}

pub struct AdtTypeV {
    pub name: Seq<char>,
    pub generics: Option<GenericsV>,
    pub elements: Seq<ElementTypeV>,
    pub derive_def: Option<AdtDeriveTypeV>,
    pub trait_def: Option<AdtTraitTypeV>,
}

pub open spec fn elements_v(es: Seq<ElementType>) -> Seq<ElementTypeV> {
    es.map_values(|e: ElementType| e@)
}

pub open spec fn opt_derive_v(d: Option<AdtDeriveType>) -> Option<AdtDeriveTypeV> {
    match d {
        Some(x) => Some(x@),
        None => None,
    }
}

pub open spec fn opt_trait_v(t: Option<AdtTraitType>) -> Option<AdtTraitTypeV> {
    match t {
        Some(x) => Some(x@),
        None => None,
    }
}

impl View for AdtType {
    type V = AdtTypeV;

    open spec fn view(&self) -> AdtTypeV {
        AdtTypeV {
            name: self.name@,
            generics: opt_generics_v(self.generics),
            elements: elements_v(self.elements@),
            derive_def: opt_derive_v(self.derive_def),
            trait_def: opt_trait_v(self.trait_def),
        }
    }
}

/// What follows an element (and an optional `derive` list) at `p`: the
/// trait after `with`, or the next element after `|`.
pub enum WithOrBar {
    With(AdtTraitTypeV, int),
    Bar(ElementTypeV, int),
}

pub open spec fn with_or_bar(s: Seq<TokV>, p: int) -> Result<WithOrBar, ParseErrorV> {
    if word_at(s, p, "with"@) {
        match trait_type(s, p + 1) {
            Ok((t, k)) => Ok(WithOrBar::With(t, k)),
            Err(e) => Err(e),
        }
    } else if punct_at(s, p, '|') {
        match element(s, p + 1) {
            Ok((e, k)) => Ok(WithOrBar::Bar(e, k)),
            Err(e) => Err(e),
        }
    } else {
        Err(ParseErrorV::ExpectedPunct('|'))
    }
}

/// The trait is kept only where it declares a method.
pub open spec fn kept_trait(t: AdtTraitTypeV) -> Option<AdtTraitTypeV> {
    if t.functions.len() > 0 {
        Some(t)
    } else {
        None
    }
}

/// The rest of the definition from `i` on, after the elements `els` and
/// the `derive` list `der` read so far: the elements, `derive` list, trait
/// and the position where reading stopped.
pub open spec fn adt_loop(s: Seq<TokV>, i: int, els: Seq<ElementTypeV>, der: Option<AdtDeriveTypeV>)
    -> Result<(Seq<ElementTypeV>, Option<AdtDeriveTypeV>, Option<AdtTraitTypeV>, int), ParseErrorV>
    decreases s.len() - i,
{
    if i < 0 || i >= s.len() {
        Ok((els, der, None, i))
    } else {
        let d: Result<(Option<AdtDeriveTypeV>, int), ParseErrorV> = if word_at(s, i, "derive"@) {
            match punct_idents(s, i + 1) {
                Ok((ds, j)) => Ok((Some(AdtDeriveTypeV { derives: ds, tokens: s.subrange(i + 1, j) }), j)),
                Err(e) => Err(e),
            }
        } else {
            Ok((der, i))
        };
        match d {
            Err(e) => Err(e),
            Ok((der2, p)) => if word_at(s, i, "derive"@) && p >= s.len() {
                Ok((els, der2, None, p))
            } else {
                match with_or_bar(s, p) {
                    Err(e) => Err(e),
                    Ok(WithOrBar::With(t, k)) => Ok((els, der2, kept_trait(t), k)),
                    Ok(WithOrBar::Bar(e, k)) => if i < k <= s.len() {
                        adt_loop(s, k, els.push(e), der2)
                    } else {
                        Err(ParseErrorV::Unrecognized)
                    },
                }
            },
        }
    }
}

/// The definition at the start of `s`: a name, generic parameters where `<`
/// follows, `=`, and the elements with what follows them; it must have two
/// elements or more.
#[verifier::opaque]
pub open spec fn adt_at(s: Seq<TokV>) -> Result<(AdtTypeV, int), ParseErrorV> {
    match ident_at(s, 0) {
        Err(e) => Err(e),
        Ok(name) => match generics_at(s, 1) {
            Err(e) => Err(e),
            Ok((g, i)) => if !punct_at(s, i, '=') {
                Err(ParseErrorV::ExpectedPunct('='))
            } else {
                match element(s, i + 1) {
                    Err(e) => Err(e),
                    Ok((e0, j)) => match adt_loop(s, j, seq![e0], None) {
                        Err(e) => Err(e),
                        Ok((els, der, tr, k)) => if els.len() >= 2 {
                            Ok((AdtTypeV { name, generics: g, elements: els, derive_def: der, trait_def: tr }, k))
                        } else {
                            Err(ParseErrorV::TooFewElements)
                        },
                    },
                }
            },
        },
    }
}

/// The definition that makes up the whole input.
pub open spec fn parse_adt(s: Seq<TokV>) -> Result<AdtTypeV, ParseErrorV> {
    whole(adt_at(s), s.len() as int)
}

impl AdtType {
    fn parse_at(s: &Vec<Tok>) -> (r: Result<(AdtType, usize), ParseError>)
        ensures
            res_v(r) == adt_at(toks_v(s@)),
    {
        proof { reveal(adt_at); }
        let ghost sv = toks_v(s@);
        let name = match read_ident(s, 0) {
            Ok(x) => x,
            Err(e) => return Err(e),
        };
        let (generics, i0) = match parse_generics_at(s, 1) {
            Ok(t) => t,
            Err(e) => return Err(e),
        };
        if !is_punct(s, i0, '=') {
            return Err(ParseError::ExpectedPunct('='));
        }
        let (e0, j) = match ElementType::parse_at(s, i0 + 1) {
            Ok(t) => t,
            Err(e) => return Err(e),
        };
        proof { lemma_element_bounds(sv, i0 + 1); }
        let ghost e0v = e0@;
        let ghost gv = opt_generics_v(generics);
        let mut elements: Vec<ElementType> = Vec::new();
        elements.push(e0);
        assert(elements_v(elements@) =~= seq![e0v]);
        let mut derive_def: Option<AdtDeriveType> = None;
        let mut trait_def: Option<AdtTraitType> = None;
        let mut i = j;
        loop
            invariant_except_break
                i <= s.len(),
                sv == toks_v(s@),
                trait_def is None,
                ident_at(sv, 0) == Ok::<Seq<char>, ParseErrorV>(name@),
                generics_at(sv, 1) == Ok::<(Option<GenericsV>, int), ParseErrorV>((gv, i0 as int)),
                punct_at(sv, i0 as int, '='),
                element(sv, i0 + 1) == Ok::<(ElementTypeV, int), ParseErrorV>((e0v, j as int)),
                gv == opt_generics_v(generics),
                adt_loop(sv, i as int, elements_v(elements@), opt_derive_v(derive_def))
                    == adt_loop(sv, j as int, seq![e0v], None),
            ensures
                adt_loop(sv, j as int, seq![e0v], None) == Ok::<_, ParseErrorV>(
                    (elements_v(elements@), opt_derive_v(derive_def), opt_trait_v(trait_def), i as int),
                ),
            decreases s.len() - i,
        {
            proof { reveal(adt_at); }
            if i >= s.len() {
                break;
            }
            let is_derive = is_word(s, i, "derive");
            let mut p = i;
            if is_derive {
                let (ds, k) = match parse_punct_idents(s, i + 1) {
                    Ok(t) => t,
                    Err(e) => {
                        assert(adt_loop(sv, i as int, elements_v(elements@), opt_derive_v(derive_def))
                            == Err::<(Seq<ElementTypeV>, Option<AdtDeriveTypeV>, Option<AdtTraitTypeV>, int), ParseErrorV>(e@));
                        return Err(e);
                    },
                };
                proof { lemma_punct_idents_bounds(sv, i + 1); }
                let tokens = copy_range(s, i + 1, k);
                derive_def = Some(AdtDeriveType { derives: ds, tokens });
                p = k;
                if k >= s.len() {
                    i = k;
                    break;
                }
            }
            if is_word(s, p, "with") {
                let (t, k) = match AdtTraitType::parse_at(s, p + 1) {
                    Ok(t) => t,
                    Err(e) => return Err(e),
                };
                if t.functions.len() > 0 {
                    trait_def = Some(t);
                }
                i = k;
                break;
            } else if is_punct(s, p, '|') {
                let (e, k) = match ElementType::parse_at(s, p + 1) {
                    Ok(t) => t,
                    Err(e) => return Err(e),
                };
                proof { lemma_element_bounds(sv, p + 1); }
                let ghost before = elements_v(elements@);
                elements.push(e);
                assert(elements_v(elements@) =~= before.push(e@));
                i = k;
            } else {
                return Err(ParseError::ExpectedPunct('|'));
            }
        }
        if elements.len() >= 2 {
            Ok((AdtType { name, generics, elements, derive_def, trait_def }, i))
        } else {
            Err(ParseError::TooFewElements)
        }
    }

    /// Reads a definition that makes up the whole input.
    pub fn parse(s: &Vec<Tok>) -> (r: Result<AdtType, ParseError>)
        ensures
            whole_v(r) == parse_adt(toks_v(s@)),
    {
        match Self::parse_at(s) {
            Ok((a, j)) => if j == s.len() {
                Ok(a)
            } else {
                Err(ParseError::UnexpectedToken)
            },
            Err(e) => Err(e),
        }
    }
}

// ---------------------------------------------------------------------------
// Laws of the grammar

pub proof fn lemma_idents_from_grows(s: Seq<TokV>, i: int, acc: Seq<Seq<char>>)
    ensures
        idents_from(s, i, acc) matches Ok((xs, _)) ==> xs.len() >= acc.len(),
    decreases s.len() - i,
{
    if punct_at(s, i, ',') {
        if let Ok(x) = ident_at(s, i + 1) {
            lemma_idents_from_grows(s, i + 2, acc.push(x));
        }
    }
}

pub proof fn lemma_adt_loop_grows(s: Seq<TokV>, i: int, els: Seq<ElementTypeV>, der: Option<AdtDeriveTypeV>)
    ensures
        adt_loop(s, i, els, der) matches Ok((es, _, t, _)) ==> es.len() >= els.len() && (t matches Some(t) ==> t.functions.len() > 0 && receivers_ok(t.functions)),
        (der matches Some(x) ==> x.derives.len() >= 1) ==> (adt_loop(s, i, els, der) matches Ok((_, d, _, _)) ==> (d matches Some(y) ==> y.derives.len() >= 1)),
    decreases s.len() - i,
{
    if 0 <= i < s.len() {
        lemma_punct_idents_nonempty(s, i + 1);
        let d: Result<(Option<AdtDeriveTypeV>, int), ParseErrorV> = if word_at(s, i, "derive"@) {
            match punct_idents(s, i + 1) {
                Ok((ds, j)) => Ok((Some(AdtDeriveTypeV { derives: ds, tokens: s.subrange(i + 1, j) }), j)),
                Err(e) => Err(e),
            }
        } else {
            Ok((der, i))
        };
        if let Ok((der2, p)) = d {
            if let Ok(WithOrBar::Bar(e, k)) = with_or_bar(s, p) {
                if i < k <= s.len() {
                    lemma_adt_loop_grows(s, k, els.push(e), der2);
                }
            }
        }
    }
}

/// A definition is accepted only with two element types or more.
pub proof fn law_two_elements_or_more(s: Seq<TokV>)
    ensures
        parse_adt(s) matches Ok(a) ==> a.elements.len() >= 2,
{
    reveal(adt_at);
}

/// A trait is kept only where it declares a method, and every method of a
/// kept trait takes its receiver as `&self`.
pub proof fn law_trait_methods(s: Seq<TokV>)
    ensures
        parse_adt(s) matches Ok(a) ==> (a.trait_def matches Some(t) ==> t.functions.len() > 0
            && forall|k: int| 0 <= k < t.functions.len() ==> #[trigger] t.functions[k].sig.receiver == Some((true, false))),
{
    reveal(adt_at);
    if let Ok(name) = ident_at(s, 0) {
        if let Ok((g, i)) = generics_at(s, 1) {
            if punct_at(s, i, '=') {
                if let Ok((e0, j)) = element(s, i + 1) {
                    lemma_adt_loop_grows(s, j, seq![e0], None);
                }
            }
        }
    }
}

/// A `derive` list names at least one trait.
pub proof fn law_derive_nonempty(s: Seq<TokV>)
    ensures
        parse_adt(s) matches Ok(a) ==> (a.derive_def matches Some(d) ==> d.derives.len() >= 1),
{
    reveal(adt_at);
    if let Ok(name) = ident_at(s, 0) {
        if let Ok((g, i)) = generics_at(s, 1) {
            if punct_at(s, i, '=') {
                if let Ok((e0, j)) = element(s, i + 1) {
                    lemma_adt_loop_grows(s, j, seq![e0], None);
                }
            }
        }
    }
}

/// Reading `syn`'s text of a piece of Rust never refuses a receiver.
pub proof fn lemma_step_after_not_receiver(rest: Result<Seq<char>, Seq<char>>, s: Seq<TokV>, i: int)
    ensures
        step_after(rest, s, i) != Err::<int, ParseErrorV>(ParseErrorV::InvalidReceiver),
{
}

pub proof fn lemma_trait_fns_not_receiver(b: Seq<TokV>, j: int, acc: Seq<TraitFnV>)
    ensures
        trait_fns(b, j, acc) != Err::<Seq<TraitFnV>, ParseErrorV>(ParseErrorV::InvalidReceiver),
    decreases b.len() - j,
{
    if 0 <= j < b.len() {
        let rest = trait_fn_rest(render_v(b.subrange(j, b.len() as int)));
        lemma_step_after_not_receiver(rest, b, j);
        if let Ok(k) = step_after(rest, b, j) {
            if j < k <= b.len() {
                if let Some(f) = trait_fn_of(b.subrange(j, k)) {
                    lemma_trait_fns_not_receiver(b, k, acc.push(f));
                }
            }
        }
    }
}

/// A trait is accepted exactly when it is read and each of its methods
/// takes its receiver as `&self` (not `&mut self`, `self`, or none), and its
/// methods are then those read, in order; it is refused for its receivers
/// exactly when it is read and one of its methods takes another receiver.
pub proof fn law_trait_receivers(s: Seq<TokV>, i: int)
    ensures
        trait_type(s, i) matches Ok((t, k)) ==> trait_read(s, i) == Ok::<(AdtTraitTypeV, int), ParseErrorV>((t, k))
            && forall|m: int| 0 <= m < t.functions.len() ==> #[trigger] t.functions[m].sig.receiver == Some((true, false)),
        trait_type(s, i) == Err::<(AdtTraitTypeV, int), ParseErrorV>(ParseErrorV::InvalidReceiver) <==> (
            trait_read(s, i) matches Ok((t, _)) && exists|m: int| 0 <= m < t.functions.len()
                && #[trigger] t.functions[m].sig.receiver != Some((true, false))),
{
    if let Ok(name) = ident_at(s, i) {
        if let Ok((g, j)) = generics_at(s, i + 1) {
            if let Ok((w, k)) = where_at(s, j) {
                if 0 <= k < s.len() && s[k] == TokV::Open(Delim::Brace) {
                    if let Some(c) = close_of(s, k + 1, 1) {
                        lemma_trait_fns_not_receiver(s.subrange(k + 1, c), 0, Seq::empty());
                    }
                }
            }
        }
    }
}

/// A comma-separated list of identifiers names at least one.
pub proof fn lemma_punct_idents_nonempty(s: Seq<TokV>, i: int)
    ensures
        punct_idents(s, i) matches Ok((xs, _)) ==> xs.len() >= 1,
{
    if let Ok(x) = ident_at(s, i) {
        lemma_idents_from_grows(s, i + 1, seq![x]);
    }
}


// ---------------------------------------------------------------------------
// Reading after a prefix, and reading before a suffix

/// A result of reading, with its position moved on by `d`.
pub open spec fn shifted<A>(r: Result<(A, int), ParseErrorV>, d: int) -> Result<(A, int), ParseErrorV> {
    match r {
        Ok((v, k)) => Ok((v, k + d)),
        Err(e) => Err(e),
    }
}

pub proof fn lemma_token_shift(x: Seq<TokV>, t: Seq<TokV>, i: int)
    requires
        0 <= i,
    ensures
        forall|c: char| #[trigger] punct_at(x + t, x.len() + i, c) == punct_at(t, i, c),
        forall|w: Seq<char>| #[trigger] word_at(x + t, x.len() + i, w) == word_at(t, i, w),
        ident_at(x + t, x.len() + i) == ident_at(t, i),
        i <= t.len() ==> (x + t).subrange(x.len() + i, (x + t).len() as int) == t.subrange(i, t.len() as int),
        i < t.len() ==> (x + t)[x.len() + i] == t[i],
{
    if i < t.len() {
        assert((x + t)[x.len() + i] == t[i]);
    }
    if i <= t.len() {
        assert((x + t).subrange(x.len() + i, (x + t).len() as int) =~= t.subrange(i, t.len() as int));
    }
}

pub proof fn lemma_idents_from_shift(x: Seq<TokV>, t: Seq<TokV>, i: int, acc: Seq<Seq<char>>)
    requires
        0 <= i,
    ensures
        idents_from(x + t, x.len() + i, acc) == shifted(idents_from(t, i, acc), x.len() as int),
    decreases t.len() - i,
{
    lemma_token_shift(x, t, i);
    lemma_token_shift(x, t, i + 1);
    assert(x.len() + i + 1 == x.len() + (i + 1));
    assert(x.len() + i + 2 == x.len() + (i + 2));
    if punct_at(t, i, ',') {
        if let Ok(v) = ident_at(t, i + 1) {
            lemma_idents_from_shift(x, t, i + 2, acc.push(v));
        }
    }
}

pub proof fn lemma_punct_idents_shift(x: Seq<TokV>, t: Seq<TokV>, i: int)
    requires
        0 <= i,
    ensures
        punct_idents(x + t, x.len() + i) == shifted(punct_idents(t, i), x.len() as int),
{
    lemma_token_shift(x, t, i);
    assert(x.len() + i + 1 == x.len() + (i + 1));
    if let Ok(v) = ident_at(t, i) {
        lemma_idents_from_shift(x, t, i + 1, seq![v]);
    }
}

pub proof fn lemma_step_after_shift(rest: Result<Seq<char>, Seq<char>>, x: Seq<TokV>, t: Seq<TokV>, i: int)
    requires
        0 <= i <= t.len(),
    ensures
        step_after(rest, x + t, x.len() + i) == match step_after(rest, t, i) {
            Ok(k) => Ok::<int, ParseErrorV>(k + x.len()),
            Err(e) => Err(e),
        },
{
    if let Ok(text) = rest {
        if let Some(r) = lexed(text) {
            if r.len() <= t.len() - i {
                assert((x + t).subrange((x + t).len() - r.len(), (x + t).len() as int) =~= t.subrange(
                    t.len() - r.len(),
                    t.len() as int,
                ));
            }
        }
    }
}

pub proof fn lemma_generics_at_shift(x: Seq<TokV>, t: Seq<TokV>, i: int)
    requires
        0 <= i <= t.len(),
    ensures
        generics_at(x + t, x.len() + i) == shifted(generics_at(t, i), x.len() as int),
        generics_at(t, i) matches Ok((_, k)) ==> i <= k <= t.len(),
{
    lemma_token_shift(x, t, i);
    if punct_at(t, i, '<') {
        if let Ok((ps, rest)) = generics_rest(render_v(t.subrange(i, t.len() as int))) {
            lemma_step_after_shift(Ok(rest), x, t, i);
            lemma_step_after_bounds(Ok(rest), t, i);
            if let Ok(k) = step_after(Ok(rest), t, i) {
                assert((x + t).subrange(x.len() + i, k + x.len()) =~= t.subrange(i, k));
            }
        }
    }
}

pub proof fn lemma_where_at_shift(x: Seq<TokV>, t: Seq<TokV>, i: int)
    requires
        0 <= i <= t.len(),
    ensures
        where_at(x + t, x.len() + i) == shifted(where_at(t, i), x.len() as int),
        where_at(t, i) matches Ok((_, k)) ==> i <= k <= t.len(),
{
    lemma_token_shift(x, t, i);
    if word_at(t, i, "where"@) {
        let rest = where_rest(render_v(t.subrange(i, t.len() as int)));
        lemma_step_after_shift(rest, x, t, i);
        lemma_step_after_bounds(rest, t, i);
        if let Ok(k) = step_after(rest, t, i) {
            assert((x + t).subrange(x.len() + i, k + x.len()) =~= t.subrange(i, k));
        }
    }
}

pub proof fn lemma_close_of_shift(x: Seq<TokV>, t: Seq<TokV>, j: int, depth: nat)
    requires
        0 <= j,
    ensures
        close_of(x + t, x.len() + j, depth) == match close_of(t, j, depth) {
            Some(c) => Some(c + x.len()),
            None => None,
        },
    decreases t.len() - j,
{
    lemma_token_shift(x, t, j);
    assert(x.len() + j + 1 == x.len() + (j + 1));
    if j < t.len() {
        match t[j] {
            TokV::Open(_) => lemma_close_of_shift(x, t, j + 1, depth + 1),
            TokV::Close(_) => if depth > 1 {
                lemma_close_of_shift(x, t, j + 1, (depth - 1) as nat)
            },
            _ => lemma_close_of_shift(x, t, j + 1, depth),
        }
    }
}

/// The trait read at `|x| + i` of `x + t` is the one read at `i` of `t`.
pub proof fn lemma_trait_type_shift(x: Seq<TokV>, t: Seq<TokV>, i: int)
    requires
        0 <= i,
    ensures
        trait_read(x + t, x.len() + i) == shifted(trait_read(t, i), x.len() as int),
        trait_type(x + t, x.len() + i) == shifted(trait_type(t, i), x.len() as int),
{
    let s = x + t;
    lemma_token_shift(x, t, i);
    if let Ok(name) = ident_at(t, i) {
        assert(x.len() + i + 1 == x.len() + (i + 1));
        lemma_generics_at_shift(x, t, i + 1);
        if let Ok((g, j)) = generics_at(t, i + 1) {
            lemma_where_at_shift(x, t, j);
            if let Ok((w, k)) = where_at(t, j) {
                lemma_token_shift(x, t, k);
                if 0 <= k < t.len() && t[k] == TokV::Open(Delim::Brace) {
                    lemma_close_of_shift(x, t, k + 1, 1);
                    assert(x.len() + k + 1 == x.len() + (k + 1));
                    if let Some(c) = close_of(t, k + 1, 1) {
                        if k < c < t.len() {
                            assert(s.subrange(x.len() + k + 1, c + x.len()) =~= t.subrange(k + 1, c));
                        }
                    }
                }
            }
        }
    }
}

pub proof fn lemma_idents_from_prefix(p: Seq<TokV>, r: Seq<TokV>, i: int, acc: Seq<Seq<char>>)
    requires
        0 <= i,
        idents_from(p, i, acc) matches Ok((_, j)) && !punct_at(p + r, j, ','),
    ensures
        idents_from(p + r, i, acc) == idents_from(p, i, acc),
    decreases p.len() - i,
{
    if punct_at(p, i, ',') {
        assert((p + r)[i] == p[i]);
        if let Ok(v) = ident_at(p, i + 1) {
            assert((p + r)[i + 1] == p[i + 1]);
            lemma_idents_from_prefix(p, r, i + 2, acc.push(v));
        }
    } else if i < p.len() {
        assert((p + r)[i] == p[i]);
    }
}

pub proof fn lemma_punct_idents_prefix(p: Seq<TokV>, r: Seq<TokV>, i: int)
    requires
        0 <= i,
        punct_idents(p, i) matches Ok((_, j)) && !punct_at(p + r, j, ','),
    ensures
        punct_idents(p + r, i) == punct_idents(p, i),
{
    if let Ok(v) = ident_at(p, i) {
        assert((p + r)[i] == p[i]);
        lemma_idents_from_prefix(p, r, i + 1, seq![v]);
    }
}

/// An element type read inside `p` is read the same whatever follows `p`,
/// where no `<` follows it.
pub proof fn lemma_element_prefix(p: Seq<TokV>, r: Seq<TokV>, i: int)
    requires
        0 <= i,
        element(p, i) is Ok,
        !punct_at(p + r, p.len() as int, '<'),
    ensures
        element(p + r, i) == element(p, i),
{
    assert((p + r)[i] == p[i]);
    if i + 1 < p.len() {
        assert((p + r)[i + 1] == p[i + 1]);
    }
    if punct_at(p, i + 1, '<') {
        if let Ok((ps, j)) = punct_idents(p, i + 2) {
            if punct_at(p, j, '>') {
                lemma_punct_idents_bounds(p, i + 2);
                assert((p + r)[j] == p[j]);
                lemma_punct_idents_prefix(p, r, i + 2);
                assert((p + r).subrange(i + 1, j + 1) =~= p.subrange(i + 1, j + 1));
            }
        }
    }
}

/// From `i` on, `s` is `| E | E ...` up to its end.
pub open spec fn bars_to_end(s: Seq<TokV>, i: int) -> bool
    decreases s.len() - i,
{
    if i == s.len() {
        true
    } else if 0 <= i < s.len() && punct_at(s, i, '|') {
        match element(s, i + 1) {
            Ok((e, k)) => i < k <= s.len() && bars_to_end(s, k),
            Err(_) => false,
        }
    } else {
        false
    }
}

/// The element types of `| E | E ...` from `i` on.
pub open spec fn bars_elements(s: Seq<TokV>, i: int) -> Seq<ElementTypeV>
    decreases s.len() - i,
{
    if 0 <= i < s.len() && punct_at(s, i, '|') {
        match element(s, i + 1) {
            Ok((e, k)) => if i < k <= s.len() {
                seq![e] + bars_elements(s, k)
            } else {
                Seq::empty()
            },
            Err(_) => Seq::empty(),
        }
    } else {
        Seq::empty()
    }
}

pub proof fn lemma_loop_prefix(p: Seq<TokV>, r: Seq<TokV>, i: int, els: Seq<ElementTypeV>)
    requires
        0 <= i <= p.len(),
        bars_to_end(p, i),
        !punct_at(p + r, p.len() as int, '<'),
    ensures
        adt_loop(p + r, i, els, None) == adt_loop(p + r, p.len() as int, els + bars_elements(p, i), None),
    decreases p.len() - i,
{
    if i == p.len() {
        assert(els + bars_elements(p, i) =~= els);
    } else {
        let s = p + r;
        assert(s[i] == p[i]);
        if let Ok((e, k)) = element(p, i + 1) {
            lemma_element_prefix(p, r, i + 1);
            lemma_loop_prefix(p, r, k, els.push(e));
            assert(els.push(e) + bars_elements(p, k) =~= els + bars_elements(p, i));
        }
    }
}

/// `p` is `Name = E1 | ... | En`: a name without generic parameters, `=`,
/// and element types separated by `|`, up to its end.
pub open spec fn plain_definition(p: Seq<TokV>) -> bool {
    &&& ident_at(p, 0) is Ok
    &&& punct_at(p, 1, '=')
    &&& element(p, 2) matches Ok((_, j)) && 2 < j <= p.len() && bars_to_end(p, j)
}

/// A reading with a `derive` list set.
pub open spec fn with_derive(r: Result<AdtTypeV, ParseErrorV>, d: AdtDeriveTypeV) -> Result<AdtTypeV, ParseErrorV> {
    match r {
        Ok(a) => Ok((AdtTypeV { derive_def: Some(d), ..a })),
        Err(e) => Err(e),
    }
}

proof fn lemma_head_prefix(p: Seq<TokV>, r: Seq<TokV>)
    requires
        plain_definition(p),
        !punct_at(p + r, p.len() as int, '<'),
    ensures
        ({
            let (e0, j) = element(p, 2)->Ok_0;
            &&& ident_at(p + r, 0) == ident_at(p, 0)
            &&& generics_at(p + r, 1) == Ok::<(Option<GenericsV>, int), ParseErrorV>((None, 1))
            &&& punct_at(p + r, 1, '=')
            &&& element(p + r, 2) == element(p, 2)
            &&& adt_loop(p + r, j, seq![e0], None) == adt_loop(p + r, p.len() as int, seq![e0] + bars_elements(p, j), None)
        }),
{
    let s = p + r;
    assert(s[0] == p[0]);
    assert(s[1] == p[1]);
    lemma_element_prefix(p, r, 2);
    let (e0, j) = element(p, 2)->Ok_0;
    lemma_loop_prefix(p, r, j, seq![e0]);
}

/// After the elements of `p`, with nothing or `with ...` following.
proof fn lemma_plain_tail(p: Seq<TokV>, q: Seq<TokV>, es: Seq<ElementTypeV>)
    requires
        q.len() == 0 || word_at(q, 0, "with"@),
    ensures
        adt_loop(p + q, p.len() as int, es, None) == if q.len() == 0 {
            Ok::<_, ParseErrorV>((es, None::<AdtDeriveTypeV>, None::<AdtTraitTypeV>, p.len() as int))
        } else {
            match trait_type(p + q, (p.len() + 1) as int) {
                Ok((t, k)) => Ok((es, None, kept_trait(t), k)),
                Err(e) => Err(e),
            }
        },
{
    reveal_strlit("with");
    reveal_strlit("derive");
    assert("with"@.len() == 4);
    assert("derive"@.len() == 6);
    assert("with"@ != "derive"@);
    if q.len() > 0 {
        assert((p + q)[p.len() as int] == q[0]);
        assert(!word_at(p + q, p.len() as int, "derive"@));
    } else {
        assert(p + q =~= p);
    }
}

/// After the elements of `p`, with `derive` and the list `dl`, then nothing
/// or `with ...`.
proof fn lemma_derive_tail(p: Seq<TokV>, q: Seq<TokV>, dl: Seq<TokV>, ds: Seq<Seq<char>>, es: Seq<ElementTypeV>)
    requires
        q.len() == 0 || word_at(q, 0, "with"@),
        punct_idents(dl, 0) == Ok::<(Seq<Seq<char>>, int), ParseErrorV>((ds, dl.len() as int)),
    ensures
        ({
            let s2 = p + (seq![TokV::Ident("derive"@)] + dl + q);
            let d = Some(AdtDeriveTypeV { derives: ds, tokens: dl });
            adt_loop(s2, p.len() as int, es, None) == if q.len() == 0 {
                Ok::<_, ParseErrorV>((es, d, None::<AdtTraitTypeV>, s2.len() as int))
            } else {
                match trait_type(s2, (p.len() + dl.len() + 2) as int) {
                    Ok((t, k)) => Ok((es, d, kept_trait(t), k)),
                    Err(e) => Err(e),
                }
            }
        }),
{
    let n = p.len() as int;
    let dv = seq![TokV::Ident("derive"@)];
    let s2 = p + (dv + dl + q);
    assert(s2[n] == TokV::Ident("derive"@));
    let x1 = p + dv;
    assert(s2 =~= x1 + (dl + q));
    assert(!punct_at(dl + q, dl.len() as int, ',')) by {
        if q.len() > 0 {
            assert((dl + q)[dl.len() as int] == q[0]);
        }
    }
    lemma_punct_idents_prefix(dl, q, 0);
    lemma_punct_idents_shift(x1, dl + q, 0);
    let p2 = n + 1 + dl.len();
    assert(punct_idents(s2, n + 1) == Ok::<(Seq<Seq<char>>, int), ParseErrorV>((ds, p2)));
    assert(s2.subrange(n + 1, p2) =~= dl);
    if q.len() > 0 {
        assert(s2[p2] == q[0]);
    }
}

/// A definition from its name and what the elements' loop gave.
spec fn finish_adt(
    name: Seq<char>,
    r: Result<(Seq<ElementTypeV>, Option<AdtDeriveTypeV>, Option<AdtTraitTypeV>, int), ParseErrorV>,
) -> Result<(AdtTypeV, int), ParseErrorV> {
    match r {
        Err(e) => Err(e),
        Ok((els, der, tr, k)) => if els.len() >= 2 {
            Ok((AdtTypeV { name, generics: None, elements: els, derive_def: der, trait_def: tr }, k))
        } else {
            Err(ParseErrorV::TooFewElements)
        },
    }
}

proof fn lemma_adt_at_plain(p: Seq<TokV>, r: Seq<TokV>)
    requires
        plain_definition(p),
        !punct_at(p + r, p.len() as int, '<'),
    ensures
        adt_at(p + r) == finish_adt(
            ident_at(p, 0)->Ok_0,
            adt_loop(p + r, p.len() as int, seq![element(p, 2)->Ok_0.0] + bars_elements(p, element(p, 2)->Ok_0.1), None),
        ),
{
    reveal(adt_at);
    lemma_head_prefix(p, r);
}

/// What the elements' loop gives at the end of the elements: the elements
/// `es` and `derive` list `der`, then nothing (`at_end`, reading stops at
/// `end`) or the trait read `tr`.
spec fn loop_end(
    es: Seq<ElementTypeV>,
    der: Option<AdtDeriveTypeV>,
    at_end: bool,
    tr: Result<(AdtTraitTypeV, int), ParseErrorV>,
    end: int,
) -> Result<(Seq<ElementTypeV>, Option<AdtDeriveTypeV>, Option<AdtTraitTypeV>, int), ParseErrorV> {
    if at_end {
        Ok((es, der, None, end))
    } else {
        match tr {
            Ok((t, k)) => Ok((es, der, kept_trait(t), k)),
            Err(e) => Err(e),
        }
    }
}

proof fn lemma_parse_plain(p: Seq<TokV>, q: Seq<TokV>)
    requires
        plain_definition(p),
        q.len() == 0 || word_at(q, 0, "with"@),
    ensures
        parse_adt(p + q) == whole(
            finish_adt(
                ident_at(p, 0)->Ok_0,
                loop_end(
                    seq![element(p, 2)->Ok_0.0] + bars_elements(p, element(p, 2)->Ok_0.1),
                    None,
                    q.len() == 0,
                    shifted(trait_type(q, 1), p.len() as int),
                    p.len() as int,
                ),
            ),
            (p + q).len() as int,
        ),
{
    let n = p.len() as int;
    let s = p + q;
    assert(!punct_at(s, n, '<')) by {
        if q.len() > 0 {
            assert(s[n] == q[0]);
        }
    }
    lemma_adt_at_plain(p, q);
    let (e0, j) = element(p, 2)->Ok_0;
    lemma_plain_tail(p, q, seq![e0] + bars_elements(p, j));
    lemma_trait_type_shift(p, q, 1);
}

proof fn lemma_parse_derived(p: Seq<TokV>, q: Seq<TokV>, dl: Seq<TokV>, ds: Seq<Seq<char>>)
    requires
        plain_definition(p),
        q.len() == 0 || word_at(q, 0, "with"@),
        punct_idents(dl, 0) == Ok::<(Seq<Seq<char>>, int), ParseErrorV>((ds, dl.len() as int)),
    ensures
        ({
            let s2 = p + (seq![TokV::Ident("derive"@)] + dl + q);
            parse_adt(s2) == whole(
                finish_adt(
                    ident_at(p, 0)->Ok_0,
                    loop_end(
                        seq![element(p, 2)->Ok_0.0] + bars_elements(p, element(p, 2)->Ok_0.1),
                        Some(AdtDeriveTypeV { derives: ds, tokens: dl }),
                        q.len() == 0,
                        shifted(trait_type(q, 1), (p.len() + dl.len() + 1) as int),
                        s2.len() as int,
                    ),
                ),
                s2.len() as int,
            )
        }),
{
    let n = p.len() as int;
    let dv = seq![TokV::Ident("derive"@)];
    let r2 = dv + dl + q;
    let s2 = p + r2;
    assert(s2[n] == TokV::Ident("derive"@));
    lemma_adt_at_plain(p, r2);
    let (e0, j) = element(p, 2)->Ok_0;
    lemma_derive_tail(p, q, dl, ds, seq![e0] + bars_elements(p, j));
    let x2 = p + dv + dl;
    assert(s2 =~= x2 + q);
    lemma_trait_type_shift(x2, q, 1);
    assert(x2.len() + 1 == n + dl.len() + 2);
}

proof fn lemma_derive_combine(
    name: Seq<char>,
    es: Seq<ElementTypeV>,
    d: AdtDeriveTypeV,
    at_end: bool,
    tr: Result<(AdtTraitTypeV, int), ParseErrorV>,
    n: int,
    m: int,
    len1: int,
    len2: int,
)
    requires
        len1 - n == len2 - m,
        at_end ==> len1 == n,
    ensures
        whole(finish_adt(name, loop_end(es, Some(d), at_end, shifted(tr, m), len2)), len2) == with_derive(
            whole(finish_adt(name, loop_end(es, None, at_end, shifted(tr, n), n)), len1),
            d,
        ),
        whole(finish_adt(name, loop_end(es, None, at_end, shifted(tr, n), n)), len1) matches Ok(a) ==> a.generics is None
            && a.derive_def is None,
{
}

/// Inserting `derive D1, ..., Dm` right after the last element type of a
/// definition whose enum declares no generic parameters (before its `with`
/// part, if it has one) gives the same reading with the `derive` list set,
/// its traits as listed; where the definition is refused, the same error.
pub proof fn law_derive_inserted(p: Seq<TokV>, q: Seq<TokV>, dl: Seq<TokV>, ds: Seq<Seq<char>>)
    requires
        plain_definition(p),
        q.len() == 0 || word_at(q, 0, "with"@),
        punct_idents(dl, 0) == Ok::<(Seq<Seq<char>>, int), ParseErrorV>((ds, dl.len() as int)),
    ensures
        parse_adt(p + (seq![TokV::Ident("derive"@)] + dl + q)) == with_derive(
            parse_adt(p + q),
            AdtDeriveTypeV { derives: ds, tokens: dl },
        ),
        parse_adt(p + q) matches Ok(a) ==> a.generics is None && a.derive_def is None,
{
    lemma_parse_plain(p, q);
    lemma_parse_derived(p, q, dl, ds);
    let s2 = p + (seq![TokV::Ident("derive"@)] + dl + q);
    lemma_derive_combine(
        ident_at(p, 0)->Ok_0,
        seq![element(p, 2)->Ok_0.0] + bars_elements(p, element(p, 2)->Ok_0.1),
        AdtDeriveTypeV { derives: ds, tokens: dl },
        q.len() == 0,
        trait_type(q, 1),
        p.len() as int,
        (p.len() + dl.len() + 1) as int,
        (p + q).len() as int,
        s2.len() as int,
    );
}

} // verus!
