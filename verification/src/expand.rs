//! The expansion of an `adt!` definition: the enum with one variant per
//! element type, `From` and `TryFrom` between the enum and each element
//! type, the trait and its implementation for the enum, which hands each
//! method to the element that the enum holds.

use crate::adt::{
    AdtType, AdtTypeV, AdtDeriveTypeV, AdtTraitTypeV, ElementType, ElementTypeV, GenericParam,
    GenericParamV, Generics, GenericsV, Signature, SignatureV, TraitFn, TraitFnV, element_tokens,
    params_v, parse_adt, signature_tokens, trait_fn_tokens,
};
use crate::grammar::{ParseError, ParseErrorV, close_of, find_close};
use crate::syntax::push_char;
use crate::tokens::{Delim, Tok, TokV, copy_range, push_all, toks_v};
use vstd::prelude::*;

verus! {

// ---------------------------------------------------------------------------
// Building token sequences

pub open spec fn id(w: Seq<char>) -> TokV {
    TokV::Ident(w)
}

/// A punctuation character that stands alone.
pub open spec fn pu(c: char) -> TokV {
    TokV::Punct(c, false)
}

/// A punctuation character joined to the one after it.
pub open spec fn pj(c: char) -> TokV {
    TokV::Punct(c, true)
}

/// A group: the opening marker, the tokens, the closing marker.
pub open spec fn grp(d: Delim, inner: Seq<TokV>) -> Seq<TokV> {
    seq![TokV::Open(d)] + inner + seq![TokV::Close(d)]
}

/// `a::b`.
pub open spec fn path2(a: Seq<char>, b: Seq<char>) -> Seq<TokV> {
    seq![id(a), pj(':'), pu(':'), id(b)]
}

fn word(w: &str) -> (r: Tok)
    ensures
        r@ == id(w@),
{
    Tok::Ident(w.to_owned())
}

fn wrap(d: Delim, inner: &Vec<Tok>) -> (r: Vec<Tok>)
    ensures
        toks_v(r@) == grp(d, toks_v(inner@)),
{
    let mut r: Vec<Tok> = Vec::new();
    r.push(Tok::Open(d));
    assert(toks_v(r@) =~= seq![TokV::Open(d)]);
    push_all(&mut r, inner);
    let ghost mid = toks_v(r@);
    r.push(Tok::Close(d));
    assert(toks_v(r@) =~= mid.push(TokV::Close(d)));
    assert(toks_v(r@) =~= grp(d, toks_v(inner@)));
    r
}

fn cat(a: Vec<Tok>, b: &Vec<Tok>) -> (r: Vec<Tok>)
    ensures
        toks_v(r@) == toks_v(a@) + toks_v(b@),
{
    let mut a = a;
    push_all(&mut a, b);
    a
}

fn path_toks(a: Tok, b: Tok) -> (r: Vec<Tok>)
    ensures
        toks_v(r@) == seq![a@, pj(':'), pu(':'), b@],
{
    let mut r: Vec<Tok> = Vec::new();
    r.push(a);
    r.push(Tok::Punct(':', true));
    r.push(Tok::Punct(':', false));
    r.push(b);
    assert(toks_v(r@) =~= seq![a@, pj(':'), pu(':'), b@]);
    r
}

// ---------------------------------------------------------------------------
// Variant names

/// An identifier without the `r#` of a raw identifier.
pub open spec fn strip_raw(x: Seq<char>) -> Seq<char> {
    if x.len() >= 2 && x[0] == 'r' && x[1] == '#' {
        x.skip(2)
    } else {
        x
    }
}

/// The name of the variant that holds element type `x`: `x_`.
pub open spec fn element_name(x: Seq<char>) -> Seq<char> {
    strip_raw(x).push('_')
}

/// The name of the variant that holds the element type `inner_type`: the
/// type's name followed by `_`.
pub fn to_element_name(inner_type: &String) -> (r: String)
    ensures
        r@ == element_name(inner_type@),
{
    let s = inner_type.as_str();
    let n = s.unicode_len();
    let raw = n >= 2 && s.get_char(0) == 'r' && s.get_char(1) == '#';
    let mut r = if raw {
        s.substring_char(2, n).to_owned()
    } else {
        inner_type.clone()
    };
    push_char(&mut r, '_');
    r
}

// ---------------------------------------------------------------------------
// `Self` in return types

/// `s[j]` opens the group of a macro invocation `path!(...)`.
pub open spec fn opens_macro(s: Seq<TokV>, j: int) -> bool {
    2 <= j < s.len() && s[j] is Open && (s[j - 1] matches TokV::Punct(c, _) && c == '!')
        && s[j - 2] is Ident
}

/// `s` from `j` on with each `Self` that is not inside a macro invocation
/// replaced by the tokens `repl`.
pub open spec fn replace_self_from(s: Seq<TokV>, j: int, repl: Seq<TokV>) -> Seq<TokV>
    decreases s.len() - j,
{
    if j < 0 || j >= s.len() {
        Seq::empty()
    } else if opens_macro(s, j) {
        match close_of(s, j + 1, 1) {
            Some(c) => if j < c < s.len() {
                s.subrange(j, c + 1) + replace_self_from(s, c + 1, repl)
            } else {
                s.subrange(j, s.len() as int)
            },
            None => s.subrange(j, s.len() as int),
        }
    } else if s[j] == id("Self"@) {
        repl + replace_self_from(s, j + 1, repl)
    } else {
        seq![s[j]] + replace_self_from(s, j + 1, repl)
    }
}

/// The tokens of a type with `Self` replaced by the tokens `repl`.
pub open spec fn replace_self(s: Seq<TokV>, repl: Seq<TokV>) -> Seq<TokV> {
    replace_self_from(s, 0, repl)
}

fn is_self(t: &Tok) -> (r: bool)
    ensures
        r == (t@ == id("Self"@)),
{
    match t {
        Tok::Ident(x) => {
            let w = "Self".to_owned();
            *x == w
        },
        _ => false,
    }
}

fn opens_macro_exec(s: &Vec<Tok>, j: usize) -> (r: bool)
    requires
        j < s.len(),
    ensures
        r == opens_macro(toks_v(s@), j as int),
{
    if j < 2 {
        return false;
    }
    let a = match &s[j] {
        Tok::Open(_) => true,
        _ => false,
    };
    let b = match &s[j - 1] {
        Tok::Punct(c, _) => *c == '!',
        _ => false,
    };
    let c = match &s[j - 2] {
        Tok::Ident(_) => true,
        _ => false,
    };
    a && b && c
}

/// The tokens of `s` with each `Self` outside macro invocations replaced by
/// the tokens `repl`.
pub fn replace_self_exec(s: &Vec<Tok>, repl: &Vec<Tok>) -> (r: Vec<Tok>)
    ensures
        toks_v(r@) == replace_self(toks_v(s@), toks_v(repl@)),
{
    let ghost sv = toks_v(s@);
    let ghost rv = toks_v(repl@);
    let mut out: Vec<Tok> = Vec::new();
    let mut j: usize = 0;
    while j < s.len()
        invariant
            j <= s.len(),
            sv == toks_v(s@),
            rv == toks_v(repl@),
            toks_v(out@) + replace_self_from(sv, j as int, rv) == replace_self(sv, rv),
        decreases s.len() - j,
    {
        let ghost before = toks_v(out@);
        if opens_macro_exec(s, j) {
            match find_close(s, j) {
                Some(c) => {
                    if j < c && c < s.len() {
                        let g = copy_range(s, j, c + 1);
                        push_all(&mut out, &g);
                        assert(toks_v(out@) + replace_self_from(sv, c + 1, rv) =~= before + replace_self_from(sv, j as int, rv));
                        j = c + 1;
                        continue;
                    }
                },
                None => {},
            }
            let g = copy_range(s, j, s.len());
            push_all(&mut out, &g);
            assert(replace_self_from(sv, s.len() as int, rv) =~= Seq::<TokV>::empty());
            assert(toks_v(out@) + replace_self_from(sv, s.len() as int, rv) =~= before + replace_self_from(sv, j as int, rv));
            j = s.len();
        } else {
            if is_self(&s[j]) {
                push_all(&mut out, repl);
            } else {
                out.push(s[j].copy());
            }
            assert(toks_v(out@) + replace_self_from(sv, j + 1, rv) =~= before + replace_self_from(sv, j as int, rv));
            j = j + 1;
        }
    }
    assert(replace_self_from(sv, s.len() as int, rv) =~= Seq::<TokV>::empty());
    assert(toks_v(out@) =~= toks_v(out@) + replace_self_from(sv, s.len() as int, rv));
    out
}

// ---------------------------------------------------------------------------
// Generic parameters

/// The parameters of optional generics.
pub open spec fn declared(g: Option<GenericsV>) -> Seq<GenericParamV> {
    match g {
        Some(g) => g.params,
        None => Seq::empty(),
    }
}

/// The tokens of optional generics as written, or nothing.
pub open spec fn generics_tokens(g: Option<GenericsV>) -> Seq<TokV> {
    match g {
        Some(g) => g.tokens,
        None => Seq::empty(),
    }
}

/// The tokens of an optional `where` clause, or nothing.
pub open spec fn where_tokens(w: Option<Seq<TokV>>) -> Seq<TokV> {
    match w {
        Some(w) => w,
        None => Seq::empty(),
    }
}

/// Element type `e` names the parameter `x` among its type parameters.
pub open spec fn names_param(e: ElementTypeV, x: Seq<TokV>) -> bool {
    e.type_param matches Some(tp) && exists|m: int| 0 <= m < tp.params.len() && x == seq![#[trigger] id(tp.params[m])]
}

/// Some element type names the parameter `x`.
pub open spec fn used_by(es: Seq<ElementTypeV>, x: Seq<TokV>) -> bool {
    exists|k: int| 0 <= k < es.len() && #[trigger] names_param(es[k], x)
}

/// The parameters of `ps` that some element type names, in their order.
pub open spec fn used_params(ps: Seq<GenericParamV>, es: Seq<ElementTypeV>) -> Seq<GenericParamV>
    decreases ps.len(),
{
    if ps.len() == 0 {
        Seq::empty()
    } else {
        used_params(ps.drop_last(), es) + if used_by(es, ps.last().name) {
            seq![ps.last()]
        } else {
            Seq::empty()
        }
    }
}

/// The names of the parameters, separated by commas.
pub open spec fn name_list(ps: Seq<GenericParamV>) -> Seq<TokV>
    decreases ps.len(),
{
    if ps.len() == 0 {
        Seq::empty()
    } else if ps.len() == 1 {
        ps[0].name
    } else {
        name_list(ps.drop_last()) + seq![pu(',')] + ps.last().name
    }
}

/// The declarations of the parameters, separated by commas.
pub open spec fn decl_list(ps: Seq<GenericParamV>) -> Seq<TokV>
    decreases ps.len(),
{
    if ps.len() == 0 {
        Seq::empty()
    } else if ps.len() == 1 {
        ps[0].decl
    } else {
        decl_list(ps.drop_last()) + seq![pu(',')] + ps.last().decl
    }
}

/// `<inner>`, or nothing where there are no parameters.
pub open spec fn angled(ps: Seq<GenericParamV>, inner: Seq<TokV>) -> Seq<TokV> {
    if ps.len() == 0 {
        Seq::empty()
    } else {
        seq![pu('<')] + inner + seq![pu('>')]
    }
}

/// `<A, B>`: the names of the parameters.
pub open spec fn names_of(ps: Seq<GenericParamV>) -> Seq<TokV> {
    angled(ps, name_list(ps))
}

/// `<A, B: Clone>`: the declarations of the parameters.
pub open spec fn decls_of(ps: Seq<GenericParamV>) -> Seq<TokV> {
    angled(ps, decl_list(ps))
}

/// The enum's type in the expansion: its name and the names of the
/// parameters that it keeps.
pub open spec fn self_type(n: Seq<char>, ug: Seq<GenericParamV>) -> Seq<TokV> {
    seq![id(n)] + names_of(ug)
}

fn copy_toks(v: &Vec<Tok>) -> (r: Vec<Tok>)
    ensures
        toks_v(r@) == toks_v(v@),
{
    let r = copy_range(v, 0, v.len());
    assert(toks_v(v@).subrange(0, v.len() as int) =~= toks_v(v@));
    r
}

fn names_param_exec(e: &ElementType, x: &Vec<Tok>) -> (r: bool)
    ensures
        r == names_param(e@, toks_v(x@)),
{
    let ghost xv = toks_v(x@);
    if x.len() != 1 {
        assert forall|w: Seq<char>| xv != seq![id(w)] by {
            assert(seq![id(w)].len() == 1);
        }
        return false;
    }
    let w = match &x[0] {
        Tok::Ident(w) => w,
        _ => {
            assert forall|w: Seq<char>| xv != seq![id(w)] by {
                assert(seq![id(w)][0] == id(w));
            }
            return false;
        },
    };
    assert(xv =~= seq![id(w@)]);
    match &e.type_param {
        None => false,
        Some(tp) => {
            let ghost ps = tp@.params;
            assert(e@.type_param == Some(tp@));
            let mut m: usize = 0;
            while m < tp.params.len()
                invariant
                    m <= tp.params.len(),
                    ps == tp@.params,
                    e@.type_param == Some(tp@),
                    xv == toks_v(x@),
                    xv == seq![id(w@)],
                    forall|q: int| 0 <= q < m ==> xv != seq![#[trigger] id(ps[q])],
                decreases tp.params.len() - m,
            {
                if tp.params[m] == *w {
                    assert(xv == seq![id(ps[m as int])]);
                    proof {
                        let tpv = e@.type_param->0;
                        assert(tpv == tp@);
                        assert(tpv.params.len() == tp.params.len());
                        assert(0 <= m < tpv.params.len() && xv == seq![id(tpv.params[m as int])]);
                    }
                    return true;
                }
                assert(xv != seq![id(ps[m as int])]) by {
                    if xv == seq![id(ps[m as int])] {
                        assert(seq![id(ps[m as int])][0] == id(w@));
                    }
                }
                m = m + 1;
            }
            false
        },
    }
}

fn used_by_exec(es: &Vec<ElementType>, x: &Vec<Tok>) -> (r: bool)
    ensures
        r == used_by(crate::adt::elements_v(es@), toks_v(x@)),
{
    let ghost ev = crate::adt::elements_v(es@);
    let mut k: usize = 0;
    while k < es.len()
        invariant
            k <= es.len(),
            ev == crate::adt::elements_v(es@),
            forall|q: int| 0 <= q < k ==> !#[trigger] names_param(ev[q], toks_v(x@)),
        decreases es.len() - k,
    {
        if names_param_exec(&es[k], x) {
            assert(names_param(ev[k as int], toks_v(x@)));
            return true;
        }
        k = k + 1;
    }
    false
}

/// The declared parameters that some element type names, in their order.
pub fn used_params_exec(ps: &Vec<GenericParam>, es: &Vec<ElementType>) -> (r: Vec<GenericParam>)
    ensures
        params_v(r@) == used_params(params_v(ps@), crate::adt::elements_v(es@)),
{
    let ghost pv = params_v(ps@);
    let ghost ev = crate::adt::elements_v(es@);
    let mut out: Vec<GenericParam> = Vec::new();
    let mut k: usize = 0;
    assert(pv.subrange(0, 0) =~= Seq::<GenericParamV>::empty());
    assert(params_v(out@) =~= Seq::<GenericParamV>::empty());
    while k < ps.len()
        invariant
            k <= ps.len(),
            pv == params_v(ps@),
            ev == crate::adt::elements_v(es@),
            params_v(out@) == used_params(pv.subrange(0, k as int), ev),
        decreases ps.len() - k,
    {
        assert(pv.subrange(0, k + 1).drop_last() =~= pv.subrange(0, k as int));
        assert(pv.subrange(0, k + 1).last() == pv[k as int]);
        let ghost before = params_v(out@);
        if used_by_exec(es, &ps[k].name) {
            let p = GenericParam { name: copy_toks(&ps[k].name), decl: copy_toks(&ps[k].decl) };
            let ghost pw = p@;
            out.push(p);
            assert(params_v(out@) =~= before.push(pw));
            assert(params_v(out@) =~= before + seq![pv[k as int]]);
        } else {
            assert(params_v(out@) =~= before + Seq::<GenericParamV>::empty());
        }
        k = k + 1;
    }
    assert(pv.subrange(0, ps.len() as int) =~= pv);
    out
}

/// `<names>` (where `names`) or `<declarations>` of the parameters, or
/// nothing where there are none.
fn angled_exec(ps: &Vec<GenericParam>, names: bool) -> (r: Vec<Tok>)
    ensures
        toks_v(r@) == if names { names_of(params_v(ps@)) } else { decls_of(params_v(ps@)) },
{
    let ghost pv = params_v(ps@);
    let mut inner: Vec<Tok> = Vec::new();
    if ps.len() == 0 {
        assert(toks_v(inner@) =~= Seq::<TokV>::empty());
        return inner;
    }
    let mut k: usize = 0;
    while k < ps.len()
        invariant
            k <= ps.len(),
            pv == params_v(ps@),
            toks_v(inner@) == if names { name_list(pv.subrange(0, k as int)) } else { decl_list(pv.subrange(0, k as int)) },
        decreases ps.len() - k,
    {
        let ghost sub = pv.subrange(0, k + 1);
        assert(sub.drop_last() =~= pv.subrange(0, k as int));
        assert(sub.last() == pv[k as int]);
        let ghost before = toks_v(inner@);
        if k > 0 {
            inner.push(Tok::Punct(',', false));
        }
        if names {
            push_all(&mut inner, &ps[k].name);
        } else {
            push_all(&mut inner, &ps[k].decl);
        }
        if k == 0 {
            assert(sub.len() == 1 && sub[0] == pv[0]);
            assert(toks_v(inner@) =~= before + (if names { pv[0].name } else { pv[0].decl }));
        } else {
            assert(toks_v(inner@) =~= before + seq![pu(',')] + (if names { pv[k as int].name } else { pv[k as int].decl }));
        }
        k = k + 1;
    }
    assert(pv.subrange(0, ps.len() as int) =~= pv);
    let mut r: Vec<Tok> = Vec::new();
    r.push(Tok::Punct('<', false));
    assert(toks_v(r@) =~= seq![pu('<')]);
    let r = cat(r, &inner);
    let r = cat(r, &one_tok(Tok::Punct('>', false)));
    r
}

/// The enum's type: its name and `<names>` of the parameters `ug`.
fn self_type_exec(n: &String, ug: &Vec<GenericParam>) -> (r: Vec<Tok>)
    ensures
        toks_v(r@) == self_type(n@, params_v(ug@)),
{
    cat(one_tok(Tok::Ident(n.clone())), &angled_exec(ug, true))
}

fn opt_generics_tokens(g: &Option<Generics>) -> (r: Vec<Tok>)
    ensures
        toks_v(r@) == generics_tokens(crate::adt::opt_generics_v(*g)),
{
    match g {
        Some(g) => copy_toks(&g.tokens),
        None => {
            let r: Vec<Tok> = Vec::new();
            assert(toks_v(r@) =~= Seq::<TokV>::empty());
            r
        },
    }
}

fn opt_params(g: &Option<Generics>) -> (r: Vec<GenericParam>)
    ensures
        params_v(r@) == declared(crate::adt::opt_generics_v(*g)),
{
    match g {
        Some(g) => {
            let mut r: Vec<GenericParam> = Vec::new();
            let mut k: usize = 0;
            while k < g.params.len()
                invariant
                    k <= g.params.len(),
                    params_v(r@) =~= params_v(g.params@).subrange(0, k as int),
                decreases g.params.len() - k,
            {
                let p = GenericParam { name: copy_toks(&g.params[k].name), decl: copy_toks(&g.params[k].decl) };
                let ghost before = params_v(r@);
                let ghost pw = p@;
                assert(pw == params_v(g.params@)[k as int]);
                r.push(p);
                assert(params_v(r@) =~= before.push(pw));
                k = k + 1;
            }
            assert(params_v(g.params@).subrange(0, g.params.len() as int) =~= params_v(g.params@));
            r
        },
        None => {
            let r: Vec<GenericParam> = Vec::new();
            assert(params_v(r@) =~= Seq::<GenericParamV>::empty());
            r
        },
    }
}

// ---------------------------------------------------------------------------
// The enum

/// `x_(x),` for element type `x`.
#[verifier::opaque]
pub open spec fn variant(e: ElementTypeV) -> Seq<TokV> {
    seq![id(element_name(e.ident))] + grp(Delim::Paren, element_tokens(e)) + seq![pu(',')]
}

pub open spec fn variants(es: Seq<ElementTypeV>) -> Seq<TokV>
    decreases es.len(),
{
    if es.len() == 0 {
        Seq::empty()
    } else {
        variants(es.drop_last()) + variant(es.last())
    }
}

/// `pub enum Name<...> { ... }` with the declarations of the parameters `ug`
/// and one variant per element type.
pub open spec fn enum_part(name: Seq<char>, ug: Seq<GenericParamV>, es: Seq<ElementTypeV>) -> Seq<TokV> {
    seq![id("pub"@), id("enum"@), id(name)] + decls_of(ug) + grp(Delim::Brace, variants(es))
}

/// `#[derive(...)]` where a `derive` list was given.
pub open spec fn derive_part(d: Option<AdtDeriveTypeV>) -> Seq<TokV> {
    match d {
        Some(x) => seq![pu('#')] + grp(Delim::Bracket, seq![id("derive"@)] + grp(Delim::Paren, x.tokens)),
        None => Seq::empty(),
    }
}

fn variant_exec(e: &ElementType) -> (r: Vec<Tok>)
    ensures
        toks_v(r@) == variant(e@),
{
    proof { reveal(variant); }
    let mut r: Vec<Tok> = Vec::new();
    r.push(Tok::Ident(to_element_name(&e.ident)));
    assert(toks_v(r@) =~= seq![id(element_name(e@.ident))]);
    let x = e.to_tokens();
    let g = wrap(Delim::Paren, &x);
    push_all(&mut r, &g);
    let ghost mid = toks_v(r@);
    r.push(Tok::Punct(',', false));
    assert(toks_v(r@) =~= mid.push(pu(',')));
    assert(toks_v(r@) =~= variant(e@));
    r
}

fn enum_exec(name: &String, ug: &Vec<GenericParam>, es: &Vec<ElementType>) -> (r: Vec<Tok>)
    ensures
        toks_v(r@) == enum_part(name@, params_v(ug@), crate::adt::elements_v(es@)),
{
    let ghost ev = crate::adt::elements_v(es@);
    let mut body: Vec<Tok> = Vec::new();
    let mut k: usize = 0;
    assert(ev.subrange(0, 0) =~= Seq::<ElementTypeV>::empty());
    while k < es.len()
        invariant
            k <= es.len(),
            ev == crate::adt::elements_v(es@),
            toks_v(body@) == variants(ev.subrange(0, k as int)),
        decreases es.len() - k,
    {
        let v = variant_exec(&es[k]);
        push_all(&mut body, &v);
        assert(ev.subrange(0, k + 1).drop_last() =~= ev.subrange(0, k as int));
        k = k + 1;
    }
    assert(ev.subrange(0, es.len() as int) =~= ev);
    let mut r: Vec<Tok> = Vec::new();
    r.push(word("pub"));
    r.push(word("enum"));
    r.push(Tok::Ident(name.clone()));
    assert(toks_v(r@) =~= seq![id("pub"@), id("enum"@), id(name@)]);
    let r = cat(r, &angled_exec(ug, false));
    let g = wrap(Delim::Brace, &body);
    cat(r, &g)
}

fn derive_exec(d: &Option<crate::adt::AdtDeriveType>) -> (r: Vec<Tok>)
    ensures
        toks_v(r@) == derive_part(crate::adt::opt_derive_v(*d)),
{
    match d {
        Some(x) => {
            let args = wrap(Delim::Paren, &x.tokens);
            let mut inner: Vec<Tok> = Vec::new();
            inner.push(word("derive"));
            assert(toks_v(inner@) =~= seq![id("derive"@)]);
            let inner = cat(inner, &args);
            let br = wrap(Delim::Bracket, &inner);
            let mut r: Vec<Tok> = Vec::new();
            r.push(Tok::Punct('#', false));
            assert(toks_v(r@) =~= seq![pu('#')]);
            cat(r, &br)
        },
        None => {
            let r: Vec<Tok> = Vec::new();
            assert(toks_v(r@) =~= Seq::<TokV>::empty());
            r
        },
    }
}

// ---------------------------------------------------------------------------
// Conversions between the enum and its element types

/// `impl<..> From<x> for Name<..> { fn from(v: x) -> Self { Self::x_(v) } }`,
/// with the parameters `ug` that the enum keeps.
#[verifier::opaque]
pub open spec fn from_impl(n: Seq<char>, ug: Seq<GenericParamV>, e: ElementTypeV) -> Seq<TokV> {
    let x = element_tokens(e);
    let en = element_name(e.ident);
    seq![id("impl"@)] + decls_of(ug) + seq![id("From"@), pu('<')] + x + seq![pu('>'), id("for"@)]
        + self_type(n, ug) + grp(
        Delim::Brace,
        seq![id("fn"@), id("from"@)] + grp(Delim::Paren, seq![id("v"@), pu(':')] + x) + seq![
            pj('-'),
            pu('>'),
            id("Self"@),
        ] + grp(Delim::Brace, path2("Self"@, en) + grp(Delim::Paren, seq![id("v"@)])),
    )
}

/// `impl<..> TryFrom<Name<..>> for x { type Error = (); fn try_from(v:
/// Name<..>) -> Result<Self, Self::Error> { if let Name::x_(x) = v { Ok(x) }
/// else { Err(()) } } }`, with the parameters `ug` that the enum keeps.
#[verifier::opaque]
pub open spec fn try_from_impl(n: Seq<char>, ug: Seq<GenericParamV>, e: ElementTypeV) -> Seq<TokV> {
    let x = element_tokens(e);
    let en = element_name(e.ident);
    let st = self_type(n, ug);
    seq![id("impl"@)] + decls_of(ug) + seq![id("TryFrom"@), pu('<')] + st + seq![pu('>'), id("for"@)] + x + grp(
        Delim::Brace,
        seq![id("type"@), id("Error"@), pu('=')] + grp(Delim::Paren, Seq::empty()) + seq![
            pu(';'),
            id("fn"@),
            id("try_from"@),
        ] + grp(Delim::Paren, seq![id("v"@), pu(':')] + st) + seq![
            pj('-'),
            pu('>'),
            id("Result"@),
            pu('<'),
            id("Self"@),
            pu(','),
        ] + path2("Self"@, "Error"@) + seq![pu('>')] + grp(
            Delim::Brace,
            seq![id("if"@), id("let"@)] + path2(n, en) + grp(Delim::Paren, seq![id("x"@)]) + seq![
                pu('='),
                id("v"@),
            ] + grp(Delim::Brace, seq![id("Ok"@)] + grp(Delim::Paren, seq![id("x"@)])) + seq![
                id("else"@),
            ] + grp(Delim::Brace, seq![id("Err"@)] + grp(Delim::Paren, grp(Delim::Paren, Seq::empty()))),
        ),
    )
}

pub open spec fn conversions(n: Seq<char>, ug: Seq<GenericParamV>, es: Seq<ElementTypeV>) -> Seq<TokV>
    decreases es.len(),
{
    if es.len() == 0 {
        Seq::empty()
    } else {
        conversions(n, ug, es.drop_last()) + from_impl(n, ug, es.last()) + try_from_impl(n, ug, es.last())
    }
}

fn one_tok(t: Tok) -> (r: Vec<Tok>)
    ensures
        toks_v(r@) == seq![t@],
{
    let mut r: Vec<Tok> = Vec::new();
    r.push(t);
    assert(toks_v(r@) =~= seq![t@]);
    r
}

fn from_exec(n: &String, ug: &Vec<GenericParam>, e: &ElementType) -> (r: Vec<Tok>)
    ensures
        toks_v(r@) == from_impl(n@, params_v(ug@), e@),
{
    proof { reveal(from_impl); }
    let x = e.to_tokens();
    let en = to_element_name(&e.ident);
    // { Self::x_(v) }
    let call = cat(path_toks(word("Self"), Tok::Ident(en)), &wrap(Delim::Paren, &one_tok(word("v"))));
    let body = wrap(Delim::Brace, &call);
    // fn from(v: x) -> Self
    let mut params: Vec<Tok> = Vec::new();
    params.push(word("v"));
    params.push(Tok::Punct(':', false));
    assert(toks_v(params@) =~= seq![id("v"@), pu(':')]);
    let params = wrap(Delim::Paren, &cat(params, &x));
    let mut f: Vec<Tok> = Vec::new();
    f.push(word("fn"));
    f.push(word("from"));
    assert(toks_v(f@) =~= seq![id("fn"@), id("from"@)]);
    let f = cat(f, &params);
    let mut arrow: Vec<Tok> = Vec::new();
    arrow.push(Tok::Punct('-', true));
    arrow.push(Tok::Punct('>', false));
    arrow.push(word("Self"));
    assert(toks_v(arrow@) =~= seq![pj('-'), pu('>'), id("Self"@)]);
    let f = cat(cat(f, &arrow), &body);
    let imp_body = wrap(Delim::Brace, &f);
    // impl<..> From<x> for n<..>
    let head = cat(one_tok(word("impl")), &angled_exec(ug, false));
    let mut from: Vec<Tok> = Vec::new();
    from.push(word("From"));
    from.push(Tok::Punct('<', false));
    assert(toks_v(from@) =~= seq![id("From"@), pu('<')]);
    let mut tail: Vec<Tok> = Vec::new();
    tail.push(Tok::Punct('>', false));
    tail.push(word("for"));
    assert(toks_v(tail@) =~= seq![pu('>'), id("for"@)]);
    let r = cat(cat(cat(cat(cat(head, &from), &x), &tail), &self_type_exec(n, ug)), &imp_body);
    assert(toks_v(r@) =~= from_impl(n@, params_v(ug@), e@));
    r
}

fn try_from_exec(n: &String, ug: &Vec<GenericParam>, e: &ElementType) -> (r: Vec<Tok>)
    ensures
        toks_v(r@) == try_from_impl(n@, params_v(ug@), e@),
{
    proof { reveal(try_from_impl); }
    let x = e.to_tokens();
    let en = to_element_name(&e.ident);
    let st = self_type_exec(n, ug);
    let empty: Vec<Tok> = Vec::new();
    assert(toks_v(empty@) =~= Seq::<TokV>::empty());
    // if let n::x_(x) = v { Ok(x) } else { Err(()) }
    let mut c1: Vec<Tok> = Vec::new();
    c1.push(word("if"));
    c1.push(word("let"));
    assert(toks_v(c1@) =~= seq![id("if"@), id("let"@)]);
    let c1 = cat(cat(c1, &path_toks(Tok::Ident(n.clone()), Tok::Ident(en))), &wrap(Delim::Paren, &one_tok(word("x"))));
    let mut c2: Vec<Tok> = Vec::new();
    c2.push(Tok::Punct('=', false));
    c2.push(word("v"));
    assert(toks_v(c2@) =~= seq![pu('='), id("v"@)]);
    let ok = wrap(Delim::Brace, &cat(one_tok(word("Ok")), &wrap(Delim::Paren, &one_tok(word("x")))));
    let err = wrap(Delim::Brace, &cat(one_tok(word("Err")), &wrap(Delim::Paren, &wrap(Delim::Paren, &empty))));
    let cond = cat(cat(cat(cat(c1, &c2), &ok), &one_tok(word("else"))), &err);
    let fbody = wrap(Delim::Brace, &cond);
    // type Error = (); fn try_from(v: n<..>) -> Result<Self, Self::Error>
    let mut t1: Vec<Tok> = Vec::new();
    t1.push(word("type"));
    t1.push(word("Error"));
    t1.push(Tok::Punct('=', false));
    assert(toks_v(t1@) =~= seq![id("type"@), id("Error"@), pu('=')]);
    let mut t2: Vec<Tok> = Vec::new();
    t2.push(Tok::Punct(';', false));
    t2.push(word("fn"));
    t2.push(word("try_from"));
    assert(toks_v(t2@) =~= seq![pu(';'), id("fn"@), id("try_from"@)]);
    let mut params: Vec<Tok> = Vec::new();
    params.push(word("v"));
    params.push(Tok::Punct(':', false));
    assert(toks_v(params@) =~= seq![id("v"@), pu(':')]);
    let params = cat(params, &st);
    let mut ret: Vec<Tok> = Vec::new();
    ret.push(Tok::Punct('-', true));
    ret.push(Tok::Punct('>', false));
    ret.push(word("Result"));
    ret.push(Tok::Punct('<', false));
    ret.push(word("Self"));
    ret.push(Tok::Punct(',', false));
    assert(toks_v(ret@) =~= seq![pj('-'), pu('>'), id("Result"@), pu('<'), id("Self"@), pu(',')]);
    let inner = cat(cat(cat(cat(cat(cat(cat(t1, &wrap(Delim::Paren, &empty)), &t2), &wrap(Delim::Paren, &params)), &ret), &path_toks(word("Self"), word("Error"))), &one_tok(Tok::Punct('>', false))), &fbody);
    let ibody = wrap(Delim::Brace, &inner);
    let head = cat(one_tok(word("impl")), &angled_exec(ug, false));
    let mut tf: Vec<Tok> = Vec::new();
    tf.push(word("TryFrom"));
    tf.push(Tok::Punct('<', false));
    assert(toks_v(tf@) =~= seq![id("TryFrom"@), pu('<')]);
    let mut fr: Vec<Tok> = Vec::new();
    fr.push(Tok::Punct('>', false));
    fr.push(word("for"));
    assert(toks_v(fr@) =~= seq![pu('>'), id("for"@)]);
    let r = cat(cat(cat(cat(cat(head, &tf), &st), &fr), &x), &ibody);
    assert(toks_v(r@) =~= try_from_impl(n@, params_v(ug@), e@));
    r
}

fn conversions_exec(n: &String, ug: &Vec<GenericParam>, es: &Vec<ElementType>) -> (r: Vec<Tok>)
    ensures
        toks_v(r@) == conversions(n@, params_v(ug@), crate::adt::elements_v(es@)),
{
    let ghost ev = crate::adt::elements_v(es@);
    let ghost uv = params_v(ug@);
    let mut out: Vec<Tok> = Vec::new();
    let mut k: usize = 0;
    assert(ev.subrange(0, 0) =~= Seq::<ElementTypeV>::empty());
    assert(toks_v(out@) =~= Seq::<TokV>::empty());
    while k < es.len()
        invariant
            k <= es.len(),
            ev == crate::adt::elements_v(es@),
            uv == params_v(ug@),
            toks_v(out@) == conversions(n@, uv, ev.subrange(0, k as int)),
        decreases es.len() - k,
    {
        let a = from_exec(n, ug, &es[k]);
        let b = try_from_exec(n, ug, &es[k]);
        push_all(&mut out, &a);
        push_all(&mut out, &b);
        assert(ev.subrange(0, k + 1).drop_last() =~= ev.subrange(0, k as int));
        k = k + 1;
    }
    assert(ev.subrange(0, es.len() as int) =~= ev);
    out
}

// ---------------------------------------------------------------------------
// The trait and its implementation for the enum

/// The signature with `Self` in its return type replaced by the tokens `st`.
pub open spec fn edit_sig(g: SignatureV, st: Seq<TokV>) -> SignatureV {
    SignatureV {
        name: g.name,
        head: g.head,
        output: replace_self(g.output, st),
        where_clause: g.where_clause,
        receiver: g.receiver,
        args: g.args,
    }
}

pub open spec fn edit_fn(f: TraitFnV, st: Seq<TokV>) -> TraitFnV {
    TraitFnV { attrs: f.attrs, sig: edit_sig(f.sig, st), tail: f.tail }
}

/// The methods of the trait, with `Self` in their return types replaced by
/// the enum's type `st`.
pub open spec fn trait_items(fs: Seq<TraitFnV>, st: Seq<TokV>) -> Seq<TokV>
    decreases fs.len(),
{
    if fs.len() == 0 {
        Seq::empty()
    } else {
        trait_items(fs.drop_last(), st) + trait_fn_tokens(edit_fn(fs.last(), st))
    }
}

/// `, p` for each typed parameter with pattern `p`.
pub open spec fn typed_args(a: Seq<Option<Seq<TokV>>>) -> Seq<TokV>
    decreases a.len(),
{
    if a.len() == 0 {
        Seq::empty()
    } else {
        typed_args(a.drop_last()) + match a.last() {
            Some(p) => seq![pu(',')] + p,
            None => Seq::empty(),
        }
    }
}

/// The pattern of a typed parameter holds the identifier `x`.
pub open spec fn arg_uses_x(o: Option<Seq<TokV>>) -> bool {
    o is Some && o->0.contains(id("x"@))
}

/// Some parameter's pattern holds the identifier `x`.
pub open spec fn patterns_use_x(a: Seq<Option<Seq<TokV>>>) -> bool {
    exists|k: int| 0 <= k < a.len() && #[trigger] arg_uses_x(a[k])
}

/// The name that the element held by the enum is bound to in each arm:
/// `x`, or `x__` (the one name that parameters may not take) where a
/// parameter's pattern uses `x`.
pub open spec fn binder(a: Seq<Option<Seq<TokV>>>) -> Seq<char> {
    if patterns_use_x(a) {
        "x__"@
    } else {
        "x"@
    }
}

/// The arguments of the call that hands a method on: the binder of the
/// element, then the pattern of each typed parameter after the first
/// parameter.
pub open spec fn call_args(a: Seq<Option<Seq<TokV>>>) -> Seq<TokV> {
    seq![id(binder(a))] + if a.len() > 0 {
        typed_args(a.drop_first())
    } else {
        Seq::empty()
    }
}

/// The path of the trait in a call: its name, and `::<A, B>` with the names
/// of its generic parameters where it has any.
pub open spec fn trait_path(t: AdtTraitTypeV) -> Seq<TokV> {
    seq![id(t.name)] + if declared(t.generics).len() > 0 {
        seq![pj(':'), pu(':')] + names_of(declared(t.generics))
    } else {
        Seq::empty()
    }
}

/// `Self::x_(x) => Trait::method(x, ...),` where `tp` is the trait's path
/// and `x` the binder of the method's parameters.
#[verifier::opaque]
pub open spec fn arm(tp: Seq<TokV>, g: SignatureV, e: ElementTypeV) -> Seq<TokV> {
    path2("Self"@, element_name(e.ident)) + grp(Delim::Paren, seq![id(binder(g.args))]) + seq![pj('='), pu('>')]
        + tp + seq![pj(':'), pu(':'), id(g.name)] + grp(Delim::Paren, call_args(g.args)) + seq![pu(',')]
}

pub open spec fn arms(tp: Seq<TokV>, g: SignatureV, es: Seq<ElementTypeV>) -> Seq<TokV>
    decreases es.len(),
{
    if es.len() == 0 {
        Seq::empty()
    } else {
        arms(tp, g, es.drop_last()) + arm(tp, g, es.last())
    }
}

/// The method for the enum: its signature, with `Self` in the return type
/// replaced by the enum's type `st`, and a `match self` with one arm per
/// element type.
pub open spec fn method_impl(tp: Seq<TokV>, st: Seq<TokV>, f: TraitFnV, es: Seq<ElementTypeV>) -> Seq<TokV> {
    signature_tokens(edit_sig(f.sig, st)) + grp(
        Delim::Brace,
        seq![id("match"@), id("self"@)] + grp(Delim::Brace, arms(tp, f.sig, es)),
    )
}

pub open spec fn method_impls(tp: Seq<TokV>, st: Seq<TokV>, fs: Seq<TraitFnV>, es: Seq<ElementTypeV>) -> Seq<TokV>
    decreases fs.len(),
{
    if fs.len() == 0 {
        Seq::empty()
    } else {
        method_impls(tp, st, fs.drop_last(), es) + method_impl(tp, st, fs.last(), es)
    }
}

/// Where a trait with methods was given: `pub trait T<..> { ... }` with the
/// trait's own generic parameters, and `impl<..> T<..> for Name<..> where ..
/// { ... }` with the enum's generic parameters as written, the names of the
/// trait's parameters, the enum's type and the trait's `where` clause.
pub open spec fn trait_part(n: Seq<char>, g: Option<GenericsV>, es: Seq<ElementTypeV>, t: Option<AdtTraitTypeV>) -> Seq<TokV> {
    match t {
        Some(t) => {
            let st = self_type(n, used_params(declared(g), es));
            seq![id("pub"@), id("trait"@), id(t.name)] + generics_tokens(t.generics) + grp(
                Delim::Brace,
                trait_items(t.functions, st),
            ) + seq![id("impl"@)] + generics_tokens(g) + seq![id(t.name)] + names_of(declared(t.generics))
                + seq![id("for"@)] + st + where_tokens(t.where_clause) + grp(
                Delim::Brace,
                method_impls(trait_path(t), st, t.functions, es),
            )
        },
        None => Seq::empty(),
    }
}

/// The whole expansion of a definition: the enum keeps the generic
/// parameters that its element types name.
pub open spec fn expansion(a: AdtTypeV) -> Seq<TokV> {
    let ug = used_params(declared(a.generics), a.elements);
    derive_part(a.derive_def) + enum_part(a.name, ug, a.elements) + trait_part(
        a.name,
        a.generics,
        a.elements,
        a.trait_def,
    ) + conversions(a.name, ug, a.elements)
}

fn copy_args(a: &Vec<Option<Vec<Tok>>>) -> (r: Vec<Option<Vec<Tok>>>)
    ensures
        crate::adt::args_v(r@) == crate::adt::args_v(a@),
{
    let mut r: Vec<Option<Vec<Tok>>> = Vec::new();
    let mut k: usize = 0;
    while k < a.len()
        invariant
            k <= a.len(),
            crate::adt::args_v(r@) =~= crate::adt::args_v(a@).subrange(0, k as int),
        decreases a.len() - k,
    {
        let x = match &a[k] {
            Some(v) => Some(copy_toks(v)),
            None => None,
        };
        let ghost before = r@;
        r.push(x);
        assert(crate::adt::args_v(r@) =~= crate::adt::args_v(before).push(crate::adt::opt_toks_v(x)));
        k = k + 1;
    }
    r
}

/// The signature with `Self` in its return type replaced by the tokens
/// `replace`.
pub fn edit_self_return_type(sig: &Signature, replace: &Vec<Tok>) -> (r: Signature)
    ensures
        r@ == edit_sig(sig@, toks_v(replace@)),
{
    Signature {
        name: sig.name.clone(),
        head: copy_toks(&sig.head),
        output: replace_self_exec(&sig.output, replace),
        where_clause: copy_toks(&sig.where_clause),
        receiver: sig.receiver,
        args: copy_args(&sig.args),
    }
}

fn edit_fn_exec(f: &TraitFn, st: &Vec<Tok>) -> (r: Vec<Tok>)
    ensures
        toks_v(r@) == trait_fn_tokens(edit_fn(f@, toks_v(st@))),
{
    let g = edit_self_return_type(&f.sig, st);
    let e = TraitFn { attrs: copy_toks(&f.attrs), sig: g, tail: copy_toks(&f.tail) };
    e.to_tokens()
}

fn binder_exec(a: &Vec<Option<Vec<Tok>>>) -> (r: String)
    ensures
        r@ == binder(crate::adt::args_v(a@)),
{
    let ghost av = crate::adt::args_v(a@);
    let xs = "x".to_owned();
    let mut k: usize = 0;
    while k < a.len()
        invariant
            k <= a.len(),
            av == crate::adt::args_v(a@),
            xs@ == "x"@,
            forall|q: int| 0 <= q < k ==> !#[trigger] arg_uses_x(av[q]),
        decreases a.len() - k,
    {
        assert(av[k as int] == crate::adt::opt_toks_v(a@[k as int]));
        match &a[k] {
            Some(p) => {
                let mut m: usize = 0;
                while m < p.len()
                    invariant
                        m <= p.len(),
                        k < a.len(),
                        av == crate::adt::args_v(a@),
                        av[k as int] == Some(toks_v(p@)),
                        xs@ == "x"@,
                        forall|q: int| 0 <= q < k ==> !#[trigger] arg_uses_x(av[q]),
                        forall|n: int| 0 <= n < m ==> #[trigger] av[k as int]->0[n] != id("x"@),
                    decreases p.len() - m,
                {
                    let hit = match &p[m] {
                        Tok::Ident(w) => *w == xs,
                        _ => false,
                    };
                    if hit {
                        proof {
                            let pv = av[k as int]->0;
                            assert(pv == toks_v(p@));
                            assert(pv.len() == p.len());
                            assert(pv[m as int] == p@[m as int]@);
                            assert(pv[m as int] == id("x"@));
                            assert(av.len() == a.len());
                            assert(pv.contains(id("x"@)));
                            assert(arg_uses_x(av[k as int]));
                            assert(patterns_use_x(av));
                        }
                        return "x__".to_owned();
                    }
                    proof {
                        let pv = av[k as int]->0;
                        assert(pv == toks_v(p@));
                        assert(pv[m as int] == p@[m as int]@);
                    }
                    m = m + 1;
                }
                assert(!arg_uses_x(av[k as int]));
            },
            None => {},
        }
        k = k + 1;
    }
    "x".to_owned()
}

fn call_args_exec(a: &Vec<Option<Vec<Tok>>>) -> (r: Vec<Tok>)
    ensures
        toks_v(r@) == call_args(crate::adt::args_v(a@)),
{
    let ghost av = crate::adt::args_v(a@);
    let ghost b = binder(av);
    let mut r = one_tok(Tok::Ident(binder_exec(a)));
    if a.len() == 0 {
        assert(toks_v(r@) =~= call_args(av));
        return r;
    }
    let ghost tail = av.drop_first();
    let mut k: usize = 1;
    assert(tail.subrange(0, 0) =~= Seq::<Option<Seq<TokV>>>::empty());
    assert(toks_v(r@) =~= seq![id(b)] + typed_args(tail.subrange(0, 0)));
    while k < a.len()
        invariant
            1 <= k <= a.len(),
            av == crate::adt::args_v(a@),
            tail == av.drop_first(),
            toks_v(r@) == seq![id(b)] + typed_args(tail.subrange(0, k - 1)),
        decreases a.len() - k,
    {
        let ghost before = toks_v(r@);
        assert(tail.subrange(0, k as int).drop_last() =~= tail.subrange(0, k - 1));
        assert(tail.subrange(0, k as int).last() == av[k as int]);
        assert(av[k as int] == crate::adt::opt_toks_v(a@[k as int]));
        match &a[k] {
            Some(p) => {
                r.push(Tok::Punct(',', false));
                assert(toks_v(r@) =~= before.push(pu(',')));
                push_all(&mut r, p);
                assert(toks_v(r@) =~= before + (seq![pu(',')] + toks_v(p@)));
            },
            None => {},
        }
        assert(toks_v(r@) =~= seq![id(b)] + typed_args(tail.subrange(0, k as int)));
        k = k + 1;
    }
    assert(tail.subrange(0, a.len() - 1) =~= tail);
    r
}

fn arm_exec(tp: &Vec<Tok>, g: &Signature, e: &ElementType) -> (r: Vec<Tok>)
    ensures
        toks_v(r@) == arm(toks_v(tp@), g@, e@),
{
    proof { reveal(arm); }
    let en = to_element_name(&e.ident);
    let mut fat: Vec<Tok> = Vec::new();
    fat.push(Tok::Punct('=', true));
    fat.push(Tok::Punct('>', false));
    assert(toks_v(fat@) =~= seq![pj('='), pu('>')]);
    let mut m: Vec<Tok> = Vec::new();
    m.push(Tok::Punct(':', true));
    m.push(Tok::Punct(':', false));
    m.push(Tok::Ident(g.name.clone()));
    assert(toks_v(m@) =~= seq![pj(':'), pu(':'), id(g@.name)]);
    let r = cat(
        cat(
            cat(
                cat(cat(cat(path_toks(word("Self"), Tok::Ident(en)), &wrap(Delim::Paren, &one_tok(Tok::Ident(binder_exec(&g.args))))), &fat), tp),
                &m,
            ),
            &wrap(Delim::Paren, &call_args_exec(&g.args)),
        ),
        &one_tok(Tok::Punct(',', false)),
    );
    assert(toks_v(r@) =~= arm(toks_v(tp@), g@, e@));
    r
}

fn method_exec(tp: &Vec<Tok>, st: &Vec<Tok>, f: &TraitFn, es: &Vec<ElementType>) -> (r: Vec<Tok>)
    ensures
        toks_v(r@) == method_impl(toks_v(tp@), toks_v(st@), f@, crate::adt::elements_v(es@)),
{
    let ghost ev = crate::adt::elements_v(es@);
    let mut body: Vec<Tok> = Vec::new();
    let mut k: usize = 0;
    assert(ev.subrange(0, 0) =~= Seq::<ElementTypeV>::empty());
    assert(toks_v(body@) =~= Seq::<TokV>::empty());
    while k < es.len()
        invariant
            k <= es.len(),
            ev == crate::adt::elements_v(es@),
            toks_v(body@) == arms(toks_v(tp@), f@.sig, ev.subrange(0, k as int)),
        decreases es.len() - k,
    {
        let a = arm_exec(tp, &f.sig, &es[k]);
        push_all(&mut body, &a);
        assert(ev.subrange(0, k + 1).drop_last() =~= ev.subrange(0, k as int));
        k = k + 1;
    }
    assert(ev.subrange(0, es.len() as int) =~= ev);
    let mut m: Vec<Tok> = Vec::new();
    m.push(word("match"));
    m.push(word("self"));
    assert(toks_v(m@) =~= seq![id("match"@), id("self"@)]);
    let inner = wrap(Delim::Brace, &cat(m, &wrap(Delim::Brace, &body)));
    let g = edit_self_return_type(&f.sig, st);
    cat(g.to_tokens(), &inner)
}

fn trait_path_exec(t: &crate::adt::AdtTraitType) -> (r: Vec<Tok>)
    ensures
        toks_v(r@) == trait_path(t@),
{
    let tps = opt_params(&t.generics);
    let r = one_tok(Tok::Ident(t.name.clone()));
    if tps.len() > 0 {
        let mut c: Vec<Tok> = Vec::new();
        c.push(Tok::Punct(':', true));
        c.push(Tok::Punct(':', false));
        assert(toks_v(c@) =~= seq![pj(':'), pu(':')]);
        cat(cat(r, &c), &angled_exec(&tps, true))
    } else {
        assert(toks_v(r@) =~= trait_path(t@));
        r
    }
}

fn trait_bodies(tp: &Vec<Tok>, st: &Vec<Tok>, fs: &Vec<TraitFn>, es: &Vec<ElementType>) -> (r: (Vec<Tok>, Vec<Tok>))
    ensures
        toks_v(r.0@) == trait_items(crate::adt::fns_v(fs@), toks_v(st@)),
        toks_v(r.1@) == method_impls(toks_v(tp@), toks_v(st@), crate::adt::fns_v(fs@), crate::adt::elements_v(es@)),
{
    let ghost fv = crate::adt::fns_v(fs@);
    let ghost ev = crate::adt::elements_v(es@);
    let mut items: Vec<Tok> = Vec::new();
    let mut impls: Vec<Tok> = Vec::new();
    let mut k: usize = 0;
    assert(fv.subrange(0, 0) =~= Seq::<TraitFnV>::empty());
    assert(toks_v(items@) =~= Seq::<TokV>::empty());
    while k < fs.len()
        invariant
            k <= fs.len(),
            fv == crate::adt::fns_v(fs@),
            ev == crate::adt::elements_v(es@),
            toks_v(items@) == trait_items(fv.subrange(0, k as int), toks_v(st@)),
            toks_v(impls@) == method_impls(toks_v(tp@), toks_v(st@), fv.subrange(0, k as int), ev),
        decreases fs.len() - k,
    {
        let a = edit_fn_exec(&fs[k], st);
        push_all(&mut items, &a);
        let b = method_exec(tp, st, &fs[k], es);
        push_all(&mut impls, &b);
        assert(fv.subrange(0, k + 1).drop_last() =~= fv.subrange(0, k as int));
        k = k + 1;
    }
    assert(fv.subrange(0, fs.len() as int) =~= fv);
    (items, impls)
}

/// `impl<..> T<..> for Name<..> where ..`
fn impl_head(g: &Option<Generics>, st: &Vec<Tok>, t: &crate::adt::AdtTraitType) -> (r: Vec<Tok>)
    ensures
        toks_v(r@) == seq![id("impl"@)] + generics_tokens(crate::adt::opt_generics_v(*g)) + seq![id(t@.name)]
            + names_of(declared(t@.generics)) + seq![id("for"@)] + toks_v(st@) + where_tokens(t@.where_clause),
{
    let h = cat(cat(cat(one_tok(word("impl")), &opt_generics_tokens(g)), &one_tok(Tok::Ident(t.name.clone()))), &angled_exec(&opt_params(&t.generics), true));
    let h = cat(cat(h, &one_tok(word("for"))), st);
    let w = match &t.where_clause {
        Some(w) => copy_toks(w),
        None => {
            let e: Vec<Tok> = Vec::new();
            assert(toks_v(e@) =~= Seq::<TokV>::empty());
            e
        },
    };
    cat(h, &w)
}

/// The trait and its implementation for the enum `n` with the generic
/// parameters `g` and the element types `es`, where a trait with methods was
/// given.
#[verifier::rlimit(30)]
pub fn trait_generate(n: &String, g: &Option<Generics>, es: &Vec<ElementType>, t: &Option<crate::adt::AdtTraitType>) -> (r: Vec<Tok>)
    ensures
        toks_v(r@) == trait_part(n@, crate::adt::opt_generics_v(*g), crate::adt::elements_v(es@), crate::adt::opt_trait_v(*t)),
{
    match t {
        None => {
            let r: Vec<Tok> = Vec::new();
            assert(toks_v(r@) =~= Seq::<TokV>::empty());
            r
        },
        Some(t) => {
            let ug = used_params_exec(&opt_params(g), es);
            let st = self_type_exec(n, &ug);
            let tp = trait_path_exec(t);
            let (items, impls) = trait_bodies(&tp, &st, &t.functions, es);
            let mut h1: Vec<Tok> = Vec::new();
            h1.push(word("pub"));
            h1.push(word("trait"));
            h1.push(Tok::Ident(t.name.clone()));
            assert(toks_v(h1@) =~= seq![id("pub"@), id("trait"@), id(t.name@)]);
            let h1 = cat(h1, &opt_generics_tokens(&t.generics));
            let h2 = impl_head(g, &st, t);
            let r = cat(cat(cat(h1, &wrap(Delim::Brace, &items)), &h2), &wrap(Delim::Brace, &impls));
            assert(toks_v(r@) =~= trait_part(n@, crate::adt::opt_generics_v(*g), crate::adt::elements_v(es@), crate::adt::opt_trait_v(Some(*t))));
            r
        },
    }
}

/// The expansion of a definition.
pub fn expand(a: &AdtType) -> (r: Vec<Tok>)
    ensures
        toks_v(r@) == expansion(a@),
{
    let ug = used_params_exec(&opt_params(&a.generics), &a.elements);
    let d = derive_exec(&a.derive_def);
    let e = enum_exec(&a.name, &ug, &a.elements);
    let t = trait_generate(&a.name, &a.generics, &a.elements, &a.trait_def);
    let c = conversions_exec(&a.name, &ug, &a.elements);
    let r = cat(cat(cat(d, &e), &t), &c);
    assert(toks_v(r@) =~= expansion(a@));
    r
}

/// Reads an `adt!` definition that makes up the whole input and expands it.
pub fn adt_generate(input: &Vec<Tok>) -> (r: Result<Vec<Tok>, ParseError>)
    ensures
        r matches Ok(out) ==> parse_adt(toks_v(input@)) matches Ok(a) && toks_v(out@) == expansion(a),
        r matches Err(e) ==> parse_adt(toks_v(input@)) == Err::<AdtTypeV, ParseErrorV>(e@),
{
    match AdtType::parse(input) {
        Ok(a) => Ok(expand(&a)),
        Err(e) => Err(e),
    }
}

// ---------------------------------------------------------------------------
// Laws of the expansion

/// A raw identifier `r#...`.
pub open spec fn is_raw(x: Seq<char>) -> bool {
    x.len() >= 2 && x[0] == 'r' && x[1] == '#'
}

/// A variant name ends with `_`, and element types with different names
/// (neither written raw) get variants with different names.
pub proof fn law_variant_names(x: Seq<char>, y: Seq<char>)
    ensures
        element_name(x).last() == '_',
        !is_raw(x) && !is_raw(y) && x != y ==> element_name(x) != element_name(y),
{
    if !is_raw(x) && !is_raw(y) && element_name(x) == element_name(y) {
        assert(x =~= element_name(x).drop_last());
        assert(y =~= element_name(y).drop_last());
    }
}

/// Replacing `Self` keeps the length of the tokens, and changes a token only
/// where it is `Self`, into `name`.
pub proof fn law_replace_self_pointwise(s: Seq<TokV>, j: int, name: Seq<char>)
    requires
        0 <= j <= s.len(),
    ensures
        replace_self_from(s, j, seq![id(name)]).len() == s.len() - j,
        forall|k: int| j <= k < s.len() ==> {
            let t = #[trigger] replace_self_from(s, j, seq![id(name)])[k - j];
            t == s[k] || (s[k] == id("Self"@) && t == id(name))
        },
    decreases s.len() - j,
{
    if j < s.len() {
        let r = replace_self_from(s, j, seq![id(name)]);
        if opens_macro(s, j) {
            match close_of(s, j + 1, 1) {
                Some(c) => if j < c < s.len() {
                    law_replace_self_pointwise(s, c + 1, name);
                    let rest = replace_self_from(s, c + 1, seq![id(name)]);
                    assert forall|k: int| j <= k < s.len() implies {
                        let t = #[trigger] r[k - j];
                        t == s[k] || (s[k] == id("Self"@) && t == id(name))
                    } by {
                        if k > c {
                            assert(r[k - j] == rest[k - (c + 1)]);
                        }
                    }
                } else {
                },
                None => {},
            }
        } else {
            law_replace_self_pointwise(s, j + 1, name);
            let rest = replace_self_from(s, j + 1, seq![id(name)]);
            assert forall|k: int| j <= k < s.len() implies {
                let t = #[trigger] r[k - j];
                t == s[k] || (s[k] == id("Self"@) && t == id(name))
            } by {
                if k > j {
                    assert(r[k - j] == rest[k - (j + 1)]);
                }
            }
        }
    }
}

/// Tokens without `Self` are left as they are, whatever replaces it.
pub proof fn law_replace_self_identity(s: Seq<TokV>, j: int, repl: Seq<TokV>)
    requires
        0 <= j <= s.len(),
        forall|k: int| 0 <= k < s.len() ==> s[k] != id("Self"@),
    ensures
        replace_self_from(s, j, repl) == s.subrange(j, s.len() as int),
    decreases s.len() - j,
{
    if j < s.len() {
        if opens_macro(s, j) {
            match close_of(s, j + 1, 1) {
                Some(c) => if j < c < s.len() {
                    law_replace_self_identity(s, c + 1, repl);
                    assert(s.subrange(j, c + 1) + s.subrange(c + 1, s.len() as int) =~= s.subrange(j, s.len() as int));
                },
                None => {},
            }
        } else {
            law_replace_self_identity(s, j + 1, repl);
            assert(seq![s[j]] + s.subrange(j + 1, s.len() as int) =~= s.subrange(j, s.len() as int));
        }
    } else {
        assert(s.subrange(j, s.len() as int) =~= Seq::<TokV>::empty());
    }
}

/// A token with the text of identifiers and the spacing of punctuation
/// forgotten: what groups and macro invocations are found by.
pub open spec fn kind(t: TokV) -> TokV {
    match t {
        TokV::Ident(_) => TokV::Ident(Seq::empty()),
        TokV::Punct(c, _) => TokV::Punct(c, false),
        _ => t,
    }
}

pub open spec fn same_kinds(s: Seq<TokV>, t: Seq<TokV>) -> bool {
    s.len() == t.len() && forall|k: int| 0 <= k < s.len() ==> #[trigger] kind(s[k]) == kind(t[k])
}

pub proof fn lemma_close_of_kinds(s: Seq<TokV>, t: Seq<TokV>, j: int, depth: nat)
    requires
        same_kinds(s, t),
    ensures
        close_of(s, j, depth) == close_of(t, j, depth),
    decreases s.len() - j,
{
    if 0 <= j < s.len() {
        assert(kind(s[j]) == kind(t[j]));
        match s[j] {
            TokV::Open(_) => lemma_close_of_kinds(s, t, j + 1, depth + 1),
            TokV::Close(_) => if depth > 1 {
                lemma_close_of_kinds(s, t, j + 1, (depth - 1) as nat)
            },
            _ => lemma_close_of_kinds(s, t, j + 1, depth),
        }
    }
}

pub proof fn lemma_opens_macro_kinds(s: Seq<TokV>, t: Seq<TokV>, j: int)
    requires
        same_kinds(s, t),
    ensures
        opens_macro(s, j) == opens_macro(t, j),
{
    if 2 <= j < s.len() {
        assert(kind(s[j]) == kind(t[j]));
        assert(kind(s[j - 1]) == kind(t[j - 1]));
        assert(kind(s[j - 2]) == kind(t[j - 2]));
    }
}

proof fn lemma_replace_self_again(s: Seq<TokV>, r: Seq<TokV>, j: int, name: Seq<char>)
    requires
        0 <= j <= s.len(),
        name != "Self"@,
        same_kinds(s, r),
        r.subrange(j, r.len() as int) == replace_self_from(s, j, seq![id(name)]),
    ensures
        replace_self_from(r, j, seq![id(name)]) == replace_self_from(s, j, seq![id(name)]),
    decreases s.len() - j,
{
    if j < s.len() {
        lemma_opens_macro_kinds(s, r, j);
        lemma_close_of_kinds(s, r, j + 1, 1);
        let rs = replace_self_from(s, j, seq![id(name)]);
        if opens_macro(s, j) {
            match close_of(s, j + 1, 1) {
                Some(c) => if j < c < s.len() {
                    let front = s.subrange(j, c + 1);
                    assert(r.subrange(j, c + 1) =~= rs.subrange(0, c + 1 - j));
                    assert(rs.subrange(0, c + 1 - j) =~= front);
                    assert(r.subrange(c + 1, r.len() as int) =~= rs.subrange(c + 1 - j, rs.len() as int));
                    assert(rs.subrange(c + 1 - j, rs.len() as int) =~= replace_self_from(s, c + 1, seq![id(name)]));
                    lemma_replace_self_again(s, r, c + 1, name);
                } else {
                    assert(r.subrange(j, r.len() as int) =~= s.subrange(j, s.len() as int));
                },
                None => {
                    assert(r.subrange(j, r.len() as int) =~= s.subrange(j, s.len() as int));
                },
            }
        } else {
            assert(r[j] == rs[0]);
            assert(r.subrange(j + 1, r.len() as int) =~= rs.drop_first());
            if s[j] == id("Self"@) {
                assert(rs.drop_first() =~= replace_self_from(s, j + 1, seq![id(name)]));
                assert(r[j] == id(name));
                assert(r[j] != id("Self"@));
            } else {
                assert(rs.drop_first() =~= replace_self_from(s, j + 1, seq![id(name)]));
            }
            lemma_replace_self_again(s, r, j + 1, name);
        }
    }
}

/// Replacing `Self` a second time changes nothing, where the new name is not
/// `Self` itself.
pub proof fn law_replace_self_idempotent(s: Seq<TokV>, name: Seq<char>)
    requires
        name != "Self"@,
    ensures
        replace_self(replace_self(s, seq![id(name)]), seq![id(name)]) == replace_self(s, seq![id(name)]),
{
    let r = replace_self(s, seq![id(name)]);
    law_replace_self_pointwise(s, 0, name);
    assert forall|k: int| 0 <= k < s.len() implies #[trigger] kind(s[k]) == kind(r[k]) by {
        assert(r[k - 0] == s[k] || (s[k] == id("Self"@) && r[k - 0] == id(name)));
    }
    assert(r.subrange(0, r.len() as int) =~= r);
    lemma_replace_self_again(s, r, 0, name);
}

pub proof fn lemma_conversions_concat(n: Seq<char>, ug: Seq<GenericParamV>, a: Seq<ElementTypeV>, b: Seq<ElementTypeV>)
    ensures
        conversions(n, ug, a + b) == conversions(n, ug, a) + conversions(n, ug, b),
    decreases b.len(),
{
    if b.len() == 0 {
        assert(a + b =~= a);
        assert(conversions(n, ug, a) + conversions(n, ug, b) =~= conversions(n, ug, a));
    } else {
        lemma_conversions_concat(n, ug, a, b.drop_last());
        assert((a + b).drop_last() =~= a + b.drop_last());
        assert(conversions(n, ug, a + b) =~= conversions(n, ug, a) + conversions(n, ug, b));
    }
}

pub proof fn lemma_variants_concat(a: Seq<ElementTypeV>, b: Seq<ElementTypeV>)
    ensures
        variants(a + b) == variants(a) + variants(b),
    decreases b.len(),
{
    if b.len() == 0 {
        assert(a + b =~= a);
        assert(variants(a) + variants(b) =~= variants(a));
    } else {
        lemma_variants_concat(a, b.drop_last());
        assert((a + b).drop_last() =~= a + b.drop_last());
        assert(variants(a + b) =~= variants(a) + variants(b));
    }
}

pub proof fn lemma_arms_concat(tp: Seq<TokV>, g: SignatureV, a: Seq<ElementTypeV>, b: Seq<ElementTypeV>)
    ensures
        arms(tp, g, a + b) == arms(tp, g, a) + arms(tp, g, b),
    decreases b.len(),
{
    if b.len() == 0 {
        assert(a + b =~= a);
        assert(arms(tp, g, a) + arms(tp, g, b) =~= arms(tp, g, a));
    } else {
        lemma_arms_concat(tp, g, a, b.drop_last());
        assert((a + b).drop_last() =~= a + b.drop_last());
        assert(arms(tp, g, a + b) =~= arms(tp, g, a) + arms(tp, g, b));
    }
}

/// Each element type `k` gets its variant in the enum, its `From` and
/// `TryFrom` implementations, and an arm in the `match` of every method, in
/// the order of the element types.
pub proof fn law_every_element_expanded(n: Seq<char>, ug: Seq<GenericParamV>, tp: Seq<TokV>, g: SignatureV, es: Seq<ElementTypeV>, k: int)
    requires
        0 <= k < es.len(),
    ensures
        variants(es) == variants(es.take(k)) + variant(es[k]) + variants(es.skip(k + 1)),
        conversions(n, ug, es) == conversions(n, ug, es.take(k)) + from_impl(n, ug, es[k]) + try_from_impl(n, ug, es[k])
            + conversions(n, ug, es.skip(k + 1)),
        arms(tp, g, es) == arms(tp, g, es.take(k)) + arm(tp, g, es[k]) + arms(tp, g, es.skip(k + 1)),
{
    let one = seq![es[k]];
    assert(es =~= es.take(k) + one + es.skip(k + 1));
    assert(one.drop_last() =~= Seq::<ElementTypeV>::empty());
    lemma_variants_concat(es.take(k) + one, es.skip(k + 1));
    lemma_variants_concat(es.take(k), one);
    assert(one.last() == es[k]);
    assert(variants(one.drop_last()) =~= Seq::<TokV>::empty());
    assert(variants(one) =~= variant(es[k]));
    lemma_conversions_concat(n, ug, es.take(k) + one, es.skip(k + 1));
    lemma_conversions_concat(n, ug, es.take(k), one);
    assert(conversions(n, ug, one.drop_last()) =~= Seq::<TokV>::empty());
    assert(conversions(n, ug, one) =~= from_impl(n, ug, es[k]) + try_from_impl(n, ug, es[k]));
    lemma_arms_concat(tp, g, es.take(k) + one, es.skip(k + 1));
    lemma_arms_concat(tp, g, es.take(k), one);
    assert(arms(tp, g, one.drop_last()) =~= Seq::<TokV>::empty());
    assert(arms(tp, g, one) =~= arm(tp, g, es[k]));
}


pub proof fn lemma_trait_items_concat(a: Seq<TraitFnV>, b: Seq<TraitFnV>, st: Seq<TokV>)
    ensures
        trait_items(a + b, st) == trait_items(a, st) + trait_items(b, st),
    decreases b.len(),
{
    if b.len() == 0 {
        assert(a + b =~= a);
        assert(trait_items(a, st) + trait_items(b, st) =~= trait_items(a, st));
    } else {
        lemma_trait_items_concat(a, b.drop_last(), st);
        assert((a + b).drop_last() =~= a + b.drop_last());
        assert(trait_items(a + b, st) =~= trait_items(a, st) + trait_items(b, st));
    }
}

pub proof fn lemma_method_impls_concat(tp: Seq<TokV>, st: Seq<TokV>, a: Seq<TraitFnV>, b: Seq<TraitFnV>, es: Seq<ElementTypeV>)
    ensures
        method_impls(tp, st, a + b, es) == method_impls(tp, st, a, es) + method_impls(tp, st, b, es),
    decreases b.len(),
{
    if b.len() == 0 {
        assert(a + b =~= a);
        assert(method_impls(tp, st, a, es) + method_impls(tp, st, b, es) =~= method_impls(tp, st, a, es));
    } else {
        lemma_method_impls_concat(tp, st, a, b.drop_last(), es);
        assert((a + b).drop_last() =~= a + b.drop_last());
        assert(method_impls(tp, st, a + b, es) =~= method_impls(tp, st, a, es) + method_impls(tp, st, b, es));
    }
}

/// Each method `k` of the trait, in the order of the methods, is declared in
/// the generated trait as it was written but for `Self` in its return type,
/// which becomes the enum's type `st`, and is defined in the implementation
/// by its signature so edited and a `match` with one arm per element type.
pub proof fn law_trait_methods_expanded(tp: Seq<TokV>, st: Seq<TokV>, fs: Seq<TraitFnV>, es: Seq<ElementTypeV>, k: int)
    requires
        0 <= k < fs.len(),
    ensures
        trait_items(fs, st) == trait_items(fs.take(k), st) + trait_fn_tokens(edit_fn(fs[k], st)) + trait_items(fs.skip(k + 1), st),
        method_impls(tp, st, fs, es) == method_impls(tp, st, fs.take(k), es) + method_impl(tp, st, fs[k], es)
            + method_impls(tp, st, fs.skip(k + 1), es),
        edit_fn(fs[k], st).attrs == fs[k].attrs,
        edit_fn(fs[k], st).tail == fs[k].tail,
        edit_fn(fs[k], st).sig.name == fs[k].sig.name,
        edit_fn(fs[k], st).sig.head == fs[k].sig.head,
        edit_fn(fs[k], st).sig.where_clause == fs[k].sig.where_clause,
        edit_fn(fs[k], st).sig.args == fs[k].sig.args,
        edit_fn(fs[k], st).sig.receiver == fs[k].sig.receiver,
        edit_fn(fs[k], st).sig.output == replace_self(fs[k].sig.output, st),
{
    let one = seq![fs[k]];
    assert(fs =~= fs.take(k) + one + fs.skip(k + 1));
    assert(one.drop_last() =~= Seq::<TraitFnV>::empty());
    assert(one.last() == fs[k]);
    lemma_trait_items_concat(fs.take(k) + one, fs.skip(k + 1), st);
    lemma_trait_items_concat(fs.take(k), one, st);
    assert(trait_items(one.drop_last(), st) =~= Seq::<TokV>::empty());
    assert(trait_items(one, st) =~= trait_fn_tokens(edit_fn(fs[k], st)));
    lemma_method_impls_concat(tp, st, fs.take(k) + one, fs.skip(k + 1), es);
    lemma_method_impls_concat(tp, st, fs.take(k), one, es);
    assert(method_impls(tp, st, one.drop_last(), es) =~= Seq::<TokV>::empty());
    assert(method_impls(tp, st, one, es) =~= method_impl(tp, st, fs[k], es));
}

/// A `derive` list only puts `#[derive(...)]`, with the traits as listed,
/// in front of what the same definition without it expands to.
pub proof fn law_derive_prepended(a: AdtTypeV, d: AdtDeriveTypeV)
    ensures
        expansion((AdtTypeV { derive_def: Some(d), ..a })) == seq![pu('#')] + grp(
            Delim::Bracket,
            seq![id("derive"@)] + grp(Delim::Paren, d.tokens),
        ) + expansion((AdtTypeV { derive_def: None, ..a })),
{
    let with_d = AdtTypeV { derive_def: Some(d), ..a };
    let without = AdtTypeV { derive_def: None, ..a };
    assert(derive_part(without.derive_def) =~= Seq::<TokV>::empty());
    assert(expansion(without) =~= enum_part(a.name, used_params(declared(a.generics), a.elements), a.elements)
        + trait_part(a.name, a.generics, a.elements, a.trait_def)
        + conversions(a.name, used_params(declared(a.generics), a.elements), a.elements));
}

/// The enum keeps exactly the declared generic parameters that some element
/// type names, in the order they were declared.
pub proof fn law_kept_params(ps: Seq<GenericParamV>, es: Seq<ElementTypeV>)
    ensures
        used_params(ps, es).len() <= ps.len(),
        forall|q: int| 0 <= q < used_params(ps, es).len() ==> ps.contains(#[trigger] used_params(ps, es)[q])
            && used_by(es, used_params(ps, es)[q].name),
        forall|p: int| 0 <= p < ps.len() && used_by(es, #[trigger] ps[p].name) ==> used_params(ps, es).contains(ps[p]),
        (forall|p: int| 0 <= p < ps.len() ==> used_by(es, #[trigger] ps[p].name)) ==> used_params(ps, es) == ps,
    decreases ps.len(),
{
    if ps.len() > 0 {
        let init = ps.drop_last();
        law_kept_params(init, es);
        let u = used_params(ps, es);
        let ui = used_params(init, es);
        assert forall|q: int| 0 <= q < u.len() implies ps.contains(#[trigger] u[q]) && used_by(es, u[q].name) by {
            if q < ui.len() {
                assert(u[q] == ui[q]);
                let w = choose|w: int| 0 <= w < init.len() && init[w] == ui[q];
                assert(ps[w] == ui[q]);
            } else {
                assert(u[q] == ps.last());
                assert(ps[ps.len() - 1] == ps.last());
            }
        }
        assert forall|p: int| 0 <= p < ps.len() && used_by(es, #[trigger] ps[p].name) implies u.contains(ps[p]) by {
            if p < ps.len() - 1 {
                assert(init[p] == ps[p]);
                assert(ui.contains(init[p]));
                let w = choose|w: int| 0 <= w < ui.len() && ui[w] == init[p];
                assert(u[w] == ui[w]);
            } else {
                assert(u[u.len() - 1] == ps.last());
            }
        }
        if forall|p: int| 0 <= p < ps.len() ==> used_by(es, #[trigger] ps[p].name) {
            assert forall|p: int| 0 <= p < init.len() implies used_by(es, #[trigger] init[p].name) by {
                assert(init[p] == ps[p]);
            }
            assert(used_by(es, ps[ps.len() - 1].name));
            assert(init.push(ps.last()) =~= ps);
            assert(u =~= ps);
        }
    }
}

/// The element is bound to a name that no parameter's pattern uses, where
/// no pattern uses `x__` (the name that parameters may not take): the
/// arguments handed on are the caller's.
pub proof fn law_binder_fresh(a: Seq<Option<Seq<TokV>>>)
    requires
        forall|k: int| 0 <= k < a.len() && #[trigger] a[k] is Some ==> !a[k]->0.contains(id("x__"@)),
    ensures
        forall|k: int| 0 <= k < a.len() && #[trigger] a[k] is Some ==> !a[k]->0.contains(id(binder(a))),
{
    assert forall|k: int| 0 <= k < a.len() && #[trigger] a[k] is Some implies !a[k]->0.contains(id(binder(a))) by {
        if !patterns_use_x(a) {
            assert(!arg_uses_x(a[k]));
        }
    }
}

/// Inserting `derive D1, ..., Dm` right after the last element type of a
/// definition whose enum declares no generic parameters (before its `with`
/// part, if it has one) only puts `#[derive(D1, ..., Dm)]` in front of what
/// the definition expanded to; a refused definition stays refused, with the
/// same error.
pub proof fn law_derive_inserted_expansion(p: Seq<TokV>, q: Seq<TokV>, dl: Seq<TokV>, ds: Seq<Seq<char>>)
    requires
        crate::adt::plain_definition(p),
        q.len() == 0 || crate::grammar::word_at(q, 0, "with"@),
        crate::adt::punct_idents(dl, 0) == Ok::<(Seq<Seq<char>>, int), ParseErrorV>((ds, dl.len() as int)),
    ensures
        parse_adt(p + q) matches Ok(a) ==> parse_adt(p + (seq![TokV::Ident("derive"@)] + dl + q)) matches Ok(b)
            && expansion(b) == seq![pu('#')] + grp(Delim::Bracket, seq![id("derive"@)] + grp(Delim::Paren, dl))
            + expansion(a),
        parse_adt(p + q) matches Err(e) ==> parse_adt(p + (seq![TokV::Ident("derive"@)] + dl + q)) == Err::<AdtTypeV, ParseErrorV>(e),
{
    crate::adt::law_derive_inserted(p, q, dl, ds);
    if let Ok(a) = parse_adt(p + q) {
        law_derive_prepended(a, AdtDeriveTypeV { derives: ds, tokens: dl });
        assert((AdtTypeV { derive_def: None, ..a }) == a);
    }
}

/// Each typed parameter hands on `, p` with its own pattern, after what the
/// parameters before it hand on and whatever they are; the receiver hands on
/// nothing. So every typed parameter is handed on, in order.
pub proof fn law_typed_args_each(a: Seq<Option<Seq<TokV>>>, b: Seq<Option<Seq<TokV>>>, p: Seq<TokV>)
    ensures
        typed_args(Seq::empty()) == Seq::<TokV>::empty(),
        typed_args(a + seq![Some(p)]) == typed_args(a) + seq![pu(',')] + p,
        typed_args(a + seq![None::<Seq<TokV>>]) == typed_args(a),
        typed_args(a + b) == typed_args(a) + typed_args(b),
    decreases b.len(),
{
    assert((a + seq![Some(p)]).drop_last() =~= a);
    assert((a + seq![None::<Seq<TokV>>]).drop_last() =~= a);
    if b.len() == 0 {
        assert(a + b =~= a);
        assert(typed_args(a) + typed_args(b) =~= typed_args(a));
    } else {
        law_typed_args_each(a, b.drop_last(), p);
        assert((a + b).drop_last() =~= a + b.drop_last());
        assert((a + b).last() == b.last());
        assert(typed_args(a + b) =~= typed_args(a) + typed_args(b));
    }
}

/// No `!` stands among the tokens, so no macro is invoked there.
pub open spec fn no_bang(s: Seq<TokV>) -> bool {
    forall|k: int| 0 <= k < s.len() ==> !(#[trigger] s[k] matches TokV::Punct(c, _) && c == '!')
}

/// Where no macro is invoked, every token `Self` becomes the name and every
/// other token stays as it is.
pub proof fn law_replace_self_every(s: Seq<TokV>, j: int, name: Seq<char>)
    requires
        0 <= j <= s.len(),
        no_bang(s),
    ensures
        replace_self_from(s, j, seq![id(name)]).len() == s.len() - j,
        forall|k: int| j <= k < s.len() ==> #[trigger] replace_self_from(s, j, seq![id(name)])[k - j] == if s[k]
            == id("Self"@) {
            id(name)
        } else {
            s[k]
        },
    decreases s.len() - j,
{
    if j < s.len() {
        if j >= 1 {
            assert(!(s[j - 1] matches TokV::Punct(c, _) && c == '!'));
        }
        assert(!opens_macro(s, j));
        law_replace_self_every(s, j + 1, name);
        let r = replace_self_from(s, j, seq![id(name)]);
        let rest = replace_self_from(s, j + 1, seq![id(name)]);
        assert forall|k: int| j <= k < s.len() implies #[trigger] r[k - j] == if s[k] == id("Self"@) {
            id(name)
        } else {
            s[k]
        } by {
            if k > j {
                assert(r[k - j] == rest[k - (j + 1)]);
            }
        }
    }
}

/// Where no macro is invoked and the replacement holds no `Self`, no `Self`
/// is left.
pub proof fn law_replace_self_leaves_none(s: Seq<TokV>, j: int, repl: Seq<TokV>)
    requires
        0 <= j <= s.len(),
        no_bang(s),
        !repl.contains(id("Self"@)),
    ensures
        !replace_self_from(s, j, repl).contains(id("Self"@)),
    decreases s.len() - j,
{
    if j < s.len() {
        if j >= 1 {
            assert(!(s[j - 1] matches TokV::Punct(c, _) && c == '!'));
        }
        assert(!opens_macro(s, j));
        law_replace_self_leaves_none(s, j + 1, repl);
        let rest = replace_self_from(s, j + 1, repl);
        let head = if s[j] == id("Self"@) { repl } else { seq![s[j]] };
        assert(replace_self_from(s, j, repl) == head + rest);
        assert(!head.contains(id("Self"@)));
        if (head + rest).contains(id("Self"@)) {
            let m = choose|m: int| 0 <= m < (head + rest).len() && (head + rest)[m] == id("Self"@);
            if m < head.len() {
                assert(head[m] == id("Self"@));
            } else {
                assert(rest[m - head.len()] == id("Self"@));
            }
        }
    }
}

/// The trait declares each method with its attributes, its whole signature
/// (qualifiers, name, generics and parameters, the return type with `Self`
/// replaced by the enum's type, the `where` clause) and its body or `;`;
/// the implementation defines it with the same whole signature and a
/// `match self` over the element types.
pub proof fn law_method_signature(tp: Seq<TokV>, st: Seq<TokV>, f: TraitFnV, es: Seq<ElementTypeV>)
    ensures
        trait_fn_tokens(edit_fn(f, st)) == f.attrs + (f.sig.head + replace_self(f.sig.output, st) + f.sig.where_clause)
            + f.tail,
        method_impl(tp, st, f, es) == (f.sig.head + replace_self(f.sig.output, st) + f.sig.where_clause) + grp(
            Delim::Brace,
            seq![id("match"@), id("self"@)] + grp(Delim::Brace, arms(tp, f.sig, es)),
        ),
{
}

/// A macro invocation `m!(...)` is copied as it is, `Self` inside it
/// included, and the replacement goes on after its closing delimiter.
pub proof fn law_replace_self_keeps_macros(s: Seq<TokV>, j: int, c: int, repl: Seq<TokV>)
    requires
        opens_macro(s, j),
        close_of(s, j + 1, 1) == Some(c),
        j < c < s.len(),
    ensures
        replace_self_from(s, j, repl).subrange(0, c + 1 - j) == s.subrange(j, c + 1),
        replace_self_from(s, j, repl).subrange(c + 1 - j, replace_self_from(s, j, repl).len() as int)
            == replace_self_from(s, c + 1, repl),
{
    let r = replace_self_from(s, j, repl);
    assert(r == s.subrange(j, c + 1) + replace_self_from(s, c + 1, repl));
    assert(r.subrange(0, c + 1 - j) =~= s.subrange(j, c + 1));
    assert(r.subrange(c + 1 - j, r.len() as int) =~= replace_self_from(s, c + 1, repl));
}

} // verus!
