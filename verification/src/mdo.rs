//! The `mdo!` macro: a monadic block of binds `x <- expr` (or `_ <- expr`)
//! that ends with `yield expr`.

use crate::grammar::{
    ParseError, ParseErrorV, ident_at, is_punct, is_word, punct_at, read_ident, render, render_v,
    res_v, step_after, step_after_exec, whole, whole_v, word_at,
};
use crate::syntax::{expr_rest, syn_expr_rest, text_result};
use crate::tokens::{Tok, TokV, copy_range, toks_v};
use vstd::prelude::*;

verus! {

/// `x <- expr`, or `_ <- expr` with no variable.
pub struct MdoBind {
    pub var: Option<String>,
    pub expr: Vec<Tok>,
}

/// `yield expr`.
pub struct MdoYield {
    pub expr: Vec<Tok>,
}

pub enum MdoStmt {
    Bind(MdoBind),
    Yield(MdoYield),
}

/// The statements of a block.
pub struct MdoBlock {
    pub stmts: Vec<MdoStmt>,
}

pub struct MdoBindV {
    pub var: Option<Seq<char>>,
    pub expr: Seq<TokV>,
}

pub struct MdoYieldV {
    pub expr: Seq<TokV>,
}

pub enum MdoStmtV {
    Bind(MdoBindV),
    Yield(MdoYieldV),
}

pub struct MdoBlockV {
    pub stmts: Seq<MdoStmtV>,
}

impl View for MdoBind {
    type V = MdoBindV;

    open spec fn view(&self) -> MdoBindV {
        MdoBindV {
            var: match self.var {
                Some(x) => Some(x@),
                None => None,
            },
            expr: toks_v(self.expr@),
        }
    }
}

impl View for MdoYield {
    type V = MdoYieldV;

    open spec fn view(&self) -> MdoYieldV {
        MdoYieldV { expr: toks_v(self.expr@) }
    }
}

impl View for MdoStmt {
    type V = MdoStmtV;

    open spec fn view(&self) -> MdoStmtV {
        match self {
            MdoStmt::Bind(b) => MdoStmtV::Bind(b@),
            MdoStmt::Yield(y) => MdoStmtV::Yield(y@),
        }
    }
}

pub open spec fn stmts_v(s: Seq<MdoStmt>) -> Seq<MdoStmtV> {
    s.map_values(|x: MdoStmt| x@)
}

impl View for MdoBlock {
    type V = MdoBlockV;

    open spec fn view(&self) -> MdoBlockV {
        MdoBlockV { stmts: stmts_v(self.stmts@) }
    }
}

// ---------------------------------------------------------------------------
// The grammar

/// An expression at `i`, as `syn` reads one.
pub open spec fn expr_at(s: Seq<TokV>, i: int) -> Result<(Seq<TokV>, int), ParseErrorV> {
    if 0 <= i <= s.len() {
        match step_after(expr_rest(render_v(s.subrange(i, s.len() as int))), s, i) {
            Ok(k) => Ok((s.subrange(i, k), k)),
            Err(e) => Err(e),
        }
    } else {
        Err(ParseErrorV::Unrecognized)
    }
}

/// `_` stands at `i`.
pub open spec fn underscore_at(s: Seq<TokV>, i: int) -> bool {
    word_at(s, i, "_"@) || punct_at(s, i, '_')
}

/// `x <- expr` or `_ <- expr` at `i`.
pub open spec fn bind_at(s: Seq<TokV>, i: int) -> Result<(MdoBindV, int), ParseErrorV> {
    let v: Result<(Option<Seq<char>>, int), ParseErrorV> = if underscore_at(s, i) {
        Ok((None, i + 1))
    } else {
        match ident_at(s, i) {
            Ok(x) => Ok((Some(x), i + 1)),
            Err(e) => Err(e),
        }
    };
    match v {
        Err(e) => Err(e),
        Ok((var, j)) => if !punct_at(s, j, '<') {
            Err(ParseErrorV::ExpectedPunct('<'))
        } else if !punct_at(s, j + 1, '-') {
            Err(ParseErrorV::ExpectedPunct('-'))
        } else {
            match expr_at(s, j + 2) {
                Ok((e, k)) => Ok((MdoBindV { var, expr: e }, k)),
                Err(e) => Err(e),
            }
        },
    }
}

/// `yield expr` at `i`.
pub open spec fn yield_at(s: Seq<TokV>, i: int) -> Result<(MdoYieldV, int), ParseErrorV> {
    if !word_at(s, i, "yield"@) {
        if i >= s.len() {
            Err(ParseErrorV::YieldAtEnd)
        } else {
            Err(ParseErrorV::ExpectedYield)
        }
    } else {
        match expr_at(s, i + 1) {
            Ok((e, k)) => Ok((MdoYieldV { expr: e }, k)),
            Err(e) => Err(e),
        }
    }
}

/// A statement at `i`: a `yield` where the word `yield` stands there, a
/// bind otherwise.
pub open spec fn stmt_at(s: Seq<TokV>, i: int) -> Result<(MdoStmtV, int), ParseErrorV> {
    if word_at(s, i, "yield"@) {
        match yield_at(s, i) {
            Ok((y, k)) => Ok((MdoStmtV::Yield(y), k)),
            Err(e) => Err(e),
        }
    } else {
        match bind_at(s, i) {
            Ok((b, k)) => Ok((MdoStmtV::Bind(b), k)),
            Err(e) => Err(e),
        }
    }
}

/// The statements from `i` to the end, added to `acc`.
pub open spec fn stmts_from(s: Seq<TokV>, i: int, acc: Seq<MdoStmtV>) -> Result<Seq<MdoStmtV>, ParseErrorV>
    decreases s.len() - i,
{
    if i < 0 || i >= s.len() {
        Ok(acc)
    } else {
        match stmt_at(s, i) {
            Ok((st, k)) => if i < k <= s.len() {
                stmts_from(s, k, acc.push(st))
            } else {
                Err(ParseErrorV::Unrecognized)
            },
            Err(e) => Err(e),
        }
    }
}

/// A block: its statements, of which there is at least one and the last is
/// a `yield`.
pub open spec fn block(s: Seq<TokV>) -> Result<MdoBlockV, ParseErrorV> {
    match stmts_from(s, 0, Seq::empty()) {
        Ok(v) => if v.len() == 0 {
            Err(ParseErrorV::EmptyBlock)
        } else if !(v.last() is Yield) {
            Err(ParseErrorV::MissingYield)
        } else {
            Ok(MdoBlockV { stmts: v })
        },
        Err(e) => Err(e),
    }
}

fn parse_expr_at(s: &Vec<Tok>, i: usize) -> (r: Result<(Vec<Tok>, usize), ParseError>)
    requires
        i <= s.len(),
    ensures
        match r {
            Ok((e, k)) => expr_at(toks_v(s@), i as int) == Ok::<(Seq<TokV>, int), ParseErrorV>((toks_v(e@), k as int)),
            Err(e) => expr_at(toks_v(s@), i as int) == Err::<(Seq<TokV>, int), ParseErrorV>(e@),
        },
        r matches Ok((_, k)) ==> i <= k <= s.len(),
{
    let text = render(s, i);
    let rest = syn_expr_rest(text.as_str());
    let ghost rv = text_result(rest);
    match step_after_exec(rest, s, i) {
        Ok(k) => {
            assert(step_after(rv, toks_v(s@), i as int) matches Ok(k) ==> i <= k <= s.len());
            let e = copy_range(s, i, k);
            Ok((e, k))
        },
        Err(e) => Err(e),
    }
}

fn is_underscore(s: &Vec<Tok>, i: usize) -> (r: bool)
    ensures
        r == underscore_at(toks_v(s@), i as int),
        r ==> i < s.len(),
{
    is_word(s, i, "_") || is_punct(s, i, '_')
}

impl MdoBind {
    fn parse_at(s: &Vec<Tok>, i: usize) -> (r: Result<(MdoBind, usize), ParseError>)
        requires
            i <= s.len(),
        ensures
            res_v(r) == bind_at(toks_v(s@), i as int),
            r matches Ok((_, k)) ==> i < k <= s.len(),
    {
        let var = if is_underscore(s, i) {
            None
        } else {
            match read_ident(s, i) {
                Ok(x) => Some(x),
                Err(e) => return Err(e),
            }
        };
        let j = i + 1;
        if !is_punct(s, j, '<') {
            return Err(ParseError::ExpectedPunct('<'));
        }
        if !is_punct(s, j + 1, '-') {
            return Err(ParseError::ExpectedPunct('-'));
        }
        match parse_expr_at(s, j + 2) {
            Ok((expr, k)) => Ok((MdoBind { var, expr }, k)),
            Err(e) => Err(e),
        }
    }

    /// Reads a bind that makes up the whole input.
    pub fn parse(s: &Vec<Tok>) -> (r: Result<MdoBind, ParseError>)
        ensures
            whole_v(r) == whole(bind_at(toks_v(s@), 0), s.len() as int),
    {
        match Self::parse_at(s, 0) {
            Ok((b, k)) => if k == s.len() {
                Ok(b)
            } else {
                Err(ParseError::UnexpectedToken)
            },
            Err(e) => Err(e),
        }
    }
}

impl MdoYield {
    fn parse_at(s: &Vec<Tok>, i: usize) -> (r: Result<(MdoYield, usize), ParseError>)
        requires
            i <= s.len(),
        ensures
            res_v(r) == yield_at(toks_v(s@), i as int),
            r matches Ok((_, k)) ==> i < k <= s.len(),
    {
        if !is_word(s, i, "yield") {
            if i >= s.len() {
                return Err(ParseError::YieldAtEnd);
            }
            return Err(ParseError::ExpectedYield);
        }
        match parse_expr_at(s, i + 1) {
            Ok((expr, k)) => Ok((MdoYield { expr }, k)),
            Err(e) => Err(e),
        }
    }

    /// Reads a `yield` that makes up the whole input.
    pub fn parse(s: &Vec<Tok>) -> (r: Result<MdoYield, ParseError>)
        ensures
            whole_v(r) == whole(yield_at(toks_v(s@), 0), s.len() as int),
    {
        match Self::parse_at(s, 0) {
            Ok((y, k)) => if k == s.len() {
                Ok(y)
            } else {
                Err(ParseError::UnexpectedToken)
            },
            Err(e) => Err(e),
        }
    }
}

impl MdoStmt {
    /// Whether the statement is a `yield`.
    pub fn is_yield(&self) -> (r: bool)
        ensures
            r == (self@ is Yield),
    {
        match self {
            MdoStmt::Yield(_) => true,
            _ => false,
        }
    }

    fn parse_at(s: &Vec<Tok>, i: usize) -> (r: Result<(MdoStmt, usize), ParseError>)
        requires
            i <= s.len(),
        ensures
            res_v(r) == stmt_at(toks_v(s@), i as int),
            r matches Ok((_, k)) ==> i < k <= s.len(),
    {
        if is_word(s, i, "yield") {
            match MdoYield::parse_at(s, i) {
                Ok((y, k)) => Ok((MdoStmt::Yield(y), k)),
                Err(e) => Err(e),
            }
        } else {
            match MdoBind::parse_at(s, i) {
                Ok((b, k)) => Ok((MdoStmt::Bind(b), k)),
                Err(e) => Err(e),
            }
        }
    }

    /// Reads a statement that makes up the whole input.
    pub fn parse(s: &Vec<Tok>) -> (r: Result<MdoStmt, ParseError>)
        ensures
            whole_v(r) == whole(stmt_at(toks_v(s@), 0), s.len() as int),
    {
        match Self::parse_at(s, 0) {
            Ok((st, k)) => if k == s.len() {
                Ok(st)
            } else {
                Err(ParseError::UnexpectedToken)
            },
            Err(e) => Err(e),
        }
    }
}

impl MdoBlock {
    /// Reads a block that makes up the whole input.
    pub fn parse(s: &Vec<Tok>) -> (r: Result<MdoBlock, ParseError>)
        ensures
            whole_v(r) == block(toks_v(s@)),
    {
        let ghost sv = toks_v(s@);
        let mut stmts: Vec<MdoStmt> = Vec::new();
        let mut i: usize = 0;
        assert(stmts_v(stmts@) =~= Seq::<MdoStmtV>::empty());
        while i < s.len()
            invariant
                i <= s.len(),
                sv == toks_v(s@),
                stmts_from(sv, i as int, stmts_v(stmts@)) == stmts_from(sv, 0, Seq::empty()),
            decreases s.len() - i,
        {
            match MdoStmt::parse_at(s, i) {
                Ok((st, k)) => {
                    let ghost before = stmts_v(stmts@);
                    stmts.push(st);
                    assert(stmts_v(stmts@) =~= before.push(st@));
                    i = k;
                },
                Err(e) => return Err(e),
            }
        }
        if stmts.len() == 0 {
            return Err(ParseError::EmptyBlock);
        }
        if !stmts[stmts.len() - 1].is_yield() {
            return Err(ParseError::MissingYield);
        }
        Ok(MdoBlock { stmts })
    }
}

/// An accepted block holds at least one statement and ends with a `yield`.
pub proof fn law_block_ends_with_yield(s: Seq<TokV>)
    ensures
        block(s) matches Ok(b) ==> b.stmts.len() >= 1 && b.stmts.last() is Yield,
{
}

/// The expansion of an `mdo!` block: no tokens, whatever the input. The
/// input is not read, so a block is not checked here either: as the macro
/// stands, its grammar is read only by the parsers above.
pub fn mdo_generate(input: &Vec<Tok>) -> (r: Result<Vec<Tok>, ParseError>)
    ensures
        r matches Ok(out) && out@.len() == 0,
{
    Ok(Vec::new())
}

/// A bind records its variable: only a lone `_` gives none; any other
/// identifier at its start is kept as the variable, as written.
pub proof fn law_bind_variable(s: Seq<TokV>, i: int, w: Seq<char>)
    ensures
        bind_at(s, i) matches Ok((b, _)) ==> (b.var is None <==> (0 <= i < s.len() && (s[i] == TokV::Ident("_"@)
            || (s[i] matches TokV::Punct(c, _) && c == '_')))),
        0 <= i < s.len() && s[i] == TokV::Ident(w) && w != "_"@ && bind_at(s, i) is Ok ==> bind_at(s, i)->Ok_0.0.var
            == Some(w),
{
}

} // verus!
