//! The calls into the Rust tokenizer of `proc-macro2` and the Rust grammar
//! of `syn`, and the rendering of tokens back into source text for them.
//!
//! The grammar of the macros is this crate's own (see `grammar`, `adt` and
//! `mdo`); what Rust itself defines (generic parameters, `where` clauses,
//! trait methods, expressions, identifiers) is read by `syn`. Each such read
//! is handed the source text of the remaining tokens and gives back the text
//! of what it left unread; the result of each call is named below.
//!
//! Inside a procedural macro `proc-macro2` would hand tokenizing and
//! printing to the compiler, which spaces and normalizes differently. Each
//! call below first switches `proc-macro2` to its own implementation
//! (`proc_macro2::fallback::force`), so that what the call gives depends on
//! its text alone, in every process.

use crate::tokens::{Delim, Tok, TokV, toks_v};
use quote::ToTokens;
use vstd::prelude::*;

verus! {

#[verifier::external_type_specification]
#[verifier::external_body]
pub struct ExTokenTree(proc_macro2::TokenTree);

/// The tokens that `proc-macro2` reads from `text` (`None` where it
/// refuses the text), flattened as in `Tok`.
pub uninterp spec fn lexed(text: Seq<char>) -> Option<Seq<TokV>>;

/// Whether `syn` reads `text` as an identifier (a word that is not a Rust
/// keyword).
pub uninterp spec fn accepts_ident(text: Seq<char>) -> bool;

/// `syn`'s reading of generic parameters at the start of `text`: for each
/// parameter the text of its name and of its declaration, and the text left
/// unread; or its error message.
pub uninterp spec fn generics_rest(text: Seq<char>) -> Result<(Seq<(Seq<char>, Seq<char>)>, Seq<char>), Seq<char>>;

/// `syn`'s reading of a `where` clause at the start of `text`: the text left
/// unread, or its error message.
pub uninterp spec fn where_rest(text: Seq<char>) -> Result<Seq<char>, Seq<char>>;

/// `syn`'s reading of one trait method at the start of `text`: the text left
/// unread, or its error message.
pub uninterp spec fn trait_fn_rest(text: Seq<char>) -> Result<Seq<char>, Seq<char>>;

/// `syn`'s reading of one expression at the start of `text`: the text left
/// unread, or its error message.
pub uninterp spec fn expr_rest(text: Seq<char>) -> Result<Seq<char>, Seq<char>>;

/// For a text that `syn` reads whole as a trait method: the text of the
/// method as `syn` prints it, and of its signature.
pub uninterp spec fn trait_fn_texts(text: Seq<char>) -> Option<(Seq<char>, Seq<char>)>;

/// For a text that `syn` reads whole as a function signature: the text of
/// the signature as `syn` prints it, of its return type part (`-> T`, or
/// nothing), of its `where` clause (or nothing), and its name; or the error
/// message where `syn` refuses the text.
pub uninterp spec fn signature_texts(text: Seq<char>) -> Result<(Seq<char>, Seq<char>, Seq<char>, Seq<char>), Seq<char>>;

/// For a text that `syn` reads whole as a function signature: its receiver,
/// if any, as (taken by reference, mutable), and for each parameter the text
/// of its pattern (`None` for the receiver).
pub uninterp spec fn signature_inputs(text: Seq<char>) -> Option<(Option<(bool, bool)>, Seq<Option<Seq<char>>>)>;

pub open spec fn text_result(r: Result<String, String>) -> Result<Seq<char>, Seq<char>> {
    match r {
        Ok(s) => Ok(s@),
        Err(e) => Err(e@),
    }
}

pub open spec fn pair_texts_view(v: Seq<(String, String)>) -> Seq<(Seq<char>, Seq<char>)> {
    v.map_values(|p: (String, String)| (p.0@, p.1@))
}

pub open spec fn params_text_result(r: Result<(Vec<(String, String)>, String), String>) -> Result<(Seq<(Seq<char>, Seq<char>)>, Seq<char>), Seq<char>> {
    match r {
        Ok((ps, s)) => Ok((pair_texts_view(ps@), s@)),
        Err(e) => Err(e@),
    }
}

pub open spec fn four_texts_result(r: Result<(String, String, String, String), String>) -> Result<(Seq<char>, Seq<char>, Seq<char>, Seq<char>), Seq<char>> {
    match r {
        Ok((a, b, c, d)) => Ok((a@, b@, c@, d@)),
        Err(e) => Err(e@),
    }
}

pub open spec fn opt_texts_view(v: Seq<Option<String>>) -> Seq<Option<Seq<char>>> {
    v.map_values(|o: Option<String>| match o {
        Some(s) => Some(s@),
        None => None,
    })
}

/// Appends one character (`String::push`).
#[verifier::external_body]
pub fn push_char(s: &mut String, c: char)
    ensures
        final(s)@ == old(s)@.push(c),
{
    s.push(c)
}

/// Appends the flat tokens of one `proc-macro2` token tree: a leaf as one
/// token, a group as its opening marker, its tokens and its closing marker
/// (a group without delimiters as its tokens alone).
#[verifier::external_body]
fn push_tree(tt: proc_macro2::TokenTree, out: &mut Vec<Tok>) {
    match tt {
        proc_macro2::TokenTree::Group(g) => {
            let d = delim_of(g.delimiter());
            out.extend(d.map(Tok::Open));
            for t in g.stream() {
                push_tree(t, out)
            }
            out.extend(d.map(Tok::Close));
        },
        proc_macro2::TokenTree::Ident(i) => out.push(Tok::Ident(i.to_string())),
        proc_macro2::TokenTree::Punct(p) => out.push(Tok::Punct(p.as_char(), p.spacing() == proc_macro2::Spacing::Joint)),
        proc_macro2::TokenTree::Literal(l) => out.push(Tok::Lit(l.to_string())),
    }
}

#[verifier::external_type_specification]
#[verifier::external_body]
pub struct ExDelimiter(proc_macro2::Delimiter);

/// The delimiter of a `proc-macro2` group (`None` for an invisible one).
#[verifier::external_body]
fn delim_of(d: proc_macro2::Delimiter) -> Option<Delim> {
    match d {
        proc_macro2::Delimiter::Parenthesis => Some(Delim::Paren),
        proc_macro2::Delimiter::Brace => Some(Delim::Brace),
        proc_macro2::Delimiter::Bracket => Some(Delim::Bracket),
        proc_macro2::Delimiter::None => None,
    }
}

/// Reads `text` into tokens with `proc-macro2`'s tokenizer
/// (`TokenStream::from_str`). The contract names the outcome `lexed`.
#[verifier::external_body]
pub(crate) fn lex(text: &str) -> (r: Option<Vec<Tok>>)
    ensures
        r is None <==> lexed(text@) is None,
        r matches Some(v) ==> lexed(text@) == Some(toks_v(v@)),
{
    proc_macro2::fallback::force();
    let ts = text.parse::<proc_macro2::TokenStream>().ok()?;
    let mut out = Vec::new();
    for tt in ts {
        push_tree(tt, &mut out)
    }
    Some(out)
}

/// Whether `syn` reads `text` as an identifier (`syn::Ident`'s parser).
#[verifier::external_body]
pub(crate) fn syn_accepts_ident(text: &str) -> (r: bool)
    ensures
        r == accepts_ident(text@),
{
    proc_macro2::fallback::force();
    syn::parse_str::<syn::Ident>(text).is_ok()
}

/// Reads generic parameters at the start of `text` with `syn::Generics`'s
/// parser; gives for each parameter its name (the identifier, or the
/// lifetime) and its declaration as printed, and the unread text, or the
/// error message.
#[verifier::external_body]
pub(crate) fn syn_generics_rest(text: &str) -> (r: Result<(Vec<(String, String)>, String), String>)
    ensures
        params_text_result(r) == generics_rest(text@),
{
    proc_macro2::fallback::force();
    syn::parse::Parser::parse_str(
        |input: syn::parse::ParseStream| {
            let g = input.parse::<syn::Generics>()?;
            let ps = g.params.iter().map(|p| (match p {
                syn::GenericParam::Type(t) => t.ident.to_string(),
                syn::GenericParam::Lifetime(l) => l.lifetime.to_string(),
                syn::GenericParam::Const(c) => c.ident.to_string(),
            }, p.to_token_stream().to_string())).collect();
            Ok((ps, input.parse::<proc_macro2::TokenStream>()?.to_string()))
        },
        text,
    ).map_err(|e| e.to_string())
}

/// Reads a `where` clause at the start of `text` with `syn::WhereClause`'s
/// parser; gives the unread text, or the error message.
#[verifier::external_body]
pub(crate) fn syn_where_rest(text: &str) -> (r: Result<String, String>)
    ensures
        text_result(r) == where_rest(text@),
{
    proc_macro2::fallback::force();
    syn::parse::Parser::parse_str(
        |input: syn::parse::ParseStream| {
            input.parse::<syn::WhereClause>()?;
            Ok(input.parse::<proc_macro2::TokenStream>()?.to_string())
        },
        text,
    ).map_err(|e| e.to_string())
}

/// Reads one trait method at the start of `text` with `syn::TraitItemFn`'s
/// parser; gives the unread text, or the error message.
#[verifier::external_body]
pub(crate) fn syn_trait_fn_rest(text: &str) -> (r: Result<String, String>)
    ensures
        text_result(r) == trait_fn_rest(text@),
{
    proc_macro2::fallback::force();
    syn::parse::Parser::parse_str(
        |input: syn::parse::ParseStream| {
            input.parse::<syn::TraitItemFn>()?;
            Ok(input.parse::<proc_macro2::TokenStream>()?.to_string())
        },
        text,
    ).map_err(|e| e.to_string())
}

/// Reads one expression at the start of `text` with `syn::Expr`'s parser;
/// gives the unread text, or the error message.
#[verifier::external_body]
pub(crate) fn syn_expr_rest(text: &str) -> (r: Result<String, String>)
    ensures
        text_result(r) == expr_rest(text@),
{
    proc_macro2::fallback::force();
    syn::parse::Parser::parse_str(
        |input: syn::parse::ParseStream| {
            input.parse::<syn::Expr>()?;
            Ok(input.parse::<proc_macro2::TokenStream>()?.to_string())
        },
        text,
    ).map_err(|e| e.to_string())
}

/// Reads `text` whole as a trait method (`syn::TraitItemFn`); gives its
/// printed text and that of its signature.
#[verifier::external_body]
pub(crate) fn syn_trait_fn_texts(text: &str) -> (r: Option<(String, String)>)
    ensures
        r is None <==> trait_fn_texts(text@) is None,
        r matches Some((a, b)) ==> trait_fn_texts(text@) == Some((a@, b@)),
{
    proc_macro2::fallback::force();
    let f = syn::parse_str::<syn::TraitItemFn>(text).ok()?;
    Some((f.to_token_stream().to_string(), f.sig.to_token_stream().to_string()))
}

/// Reads `text` whole as a function signature (`syn::Signature`); gives its
/// printed text, that of its return type part and of its `where` clause,
/// and its name, or the error message.
#[verifier::external_body]
pub(crate) fn syn_signature_texts(text: &str) -> (r: Result<(String, String, String, String), String>)
    ensures
        four_texts_result(r) == signature_texts(text@),
{
    proc_macro2::fallback::force();
    let s = syn::parse_str::<syn::Signature>(text).map_err(|e| e.to_string())?;
    Ok((
        s.to_token_stream().to_string(),
        s.output.to_token_stream().to_string(),
        s.generics.where_clause.to_token_stream().to_string(),
        s.ident.to_string(),
    ))
}

/// Reads `text` whole as a function signature (`syn::Signature`); gives its
/// receiver as (by reference, mutable) and the pattern text of each typed
/// parameter.
#[verifier::external_body]
pub(crate) fn syn_signature_inputs(text: &str) -> (r: Option<(Option<(bool, bool)>, Vec<Option<String>>)>)
    ensures
        r is None <==> signature_inputs(text@) is None,
        r matches Some((rc, ps)) ==> signature_inputs(text@) == Some((rc, opt_texts_view(ps@))),
{
    proc_macro2::fallback::force();
    let s = syn::parse_str::<syn::Signature>(text).ok()?;
    let rc = s.receiver().map(|x| (x.reference.is_some(), x.mutability.is_some()));
    Some((rc, s.inputs.iter().map(|a| match a {
        syn::FnArg::Typed(t) => Some(t.pat.to_token_stream().to_string()),
        syn::FnArg::Receiver(_) => None,
    }).collect()))
}

} // verus!
