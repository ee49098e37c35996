//! What the macro grammars share: the parse errors, reading single tokens,
//! finding the end of a group, and reading a piece of Rust syntax with `syn`
//! at a position of a token sequence.

use crate::syntax::{accepts_ident, lex, lexed, push_char, syn_accepts_ident, text_result};
use crate::tokens::{Delim, Tok, TokV, toks_v};
use vstd::prelude::*;

verus! {

/// Why a macro input is refused.
#[derive(Debug, PartialEq, Eq)]
pub enum ParseError {
    /// An identifier was expected.
    ExpectedIdent,
    /// An identifier was expected where this keyword stands.
    KeywordFound(String),
    /// The input ended where an identifier was expected.
    IdentAtEnd,
    /// The given punctuation character was expected.
    ExpectedPunct(char),
    /// The word `yield` was expected.
    ExpectedYield,
    /// The input ended where the word `yield` was expected.
    YieldAtEnd,
    /// A group in curly braces was expected.
    ExpectedBraces,
    /// The input ended where a group in curly braces was expected.
    BracesAtEnd,
    /// The Rust syntax read by `syn` was refused, with its message.
    Syntax(String),
    /// Tokens are left over after the whole input was read.
    UnexpectedToken,
    /// An algebraic data type must have two elements or more.
    TooFewElements,
    /// A method takes its receiver otherwise than as `&self`.
    InvalidReceiver,
    /// A monadic block holds no statement.
    EmptyBlock,
    /// A monadic block does not end with a `yield`.
    MissingYield,
    /// The tokens that `syn` left unread, or that it printed, do not line up
    /// with the input.
    Unrecognized,
}

pub enum ParseErrorV {
    ExpectedIdent,
    KeywordFound(Seq<char>),
    IdentAtEnd,
    ExpectedPunct(char),
    ExpectedYield,
    YieldAtEnd,
    ExpectedBraces,
    BracesAtEnd,
    Syntax(Seq<char>),
    UnexpectedToken,
    TooFewElements,
    InvalidReceiver,
    EmptyBlock,
    MissingYield,
    Unrecognized,
}

impl View for ParseError {
    type V = ParseErrorV;

    open spec fn view(&self) -> ParseErrorV {
        match self {
            ParseError::ExpectedIdent => ParseErrorV::ExpectedIdent,
            ParseError::KeywordFound(w) => ParseErrorV::KeywordFound(w@),
            ParseError::IdentAtEnd => ParseErrorV::IdentAtEnd,
            ParseError::ExpectedPunct(c) => ParseErrorV::ExpectedPunct(*c),
            ParseError::ExpectedYield => ParseErrorV::ExpectedYield,
            ParseError::YieldAtEnd => ParseErrorV::YieldAtEnd,
            ParseError::ExpectedBraces => ParseErrorV::ExpectedBraces,
            ParseError::BracesAtEnd => ParseErrorV::BracesAtEnd,
            ParseError::Syntax(m) => ParseErrorV::Syntax(m@),
            ParseError::UnexpectedToken => ParseErrorV::UnexpectedToken,
            ParseError::TooFewElements => ParseErrorV::TooFewElements,
            ParseError::InvalidReceiver => ParseErrorV::InvalidReceiver,
            ParseError::EmptyBlock => ParseErrorV::EmptyBlock,
            ParseError::MissingYield => ParseErrorV::MissingYield,
            ParseError::Unrecognized => ParseErrorV::Unrecognized,
        }
    }
}

/// The message that reports an error, in `syn`'s words; where the input
/// ended, prefixed as `syn` prefixes it.
pub open spec fn message_v(e: ParseErrorV) -> Seq<char> {
    match e {
        ParseErrorV::ExpectedIdent => "expected identifier"@,
        ParseErrorV::KeywordFound(w) => "expected identifier, found keyword `"@ + w + "`"@,
        ParseErrorV::IdentAtEnd => "unexpected end of input, expected identifier"@,
        ParseErrorV::ExpectedPunct(c) => "expected `"@ + seq![c] + "`"@,
        ParseErrorV::ExpectedYield => "expected `yield`"@,
        ParseErrorV::YieldAtEnd => "unexpected end of input, expected `yield`"@,
        ParseErrorV::ExpectedBraces => "expected curly braces"@,
        ParseErrorV::BracesAtEnd => "unexpected end of input, expected curly braces"@,
        ParseErrorV::Syntax(m) => m,
        ParseErrorV::UnexpectedToken => "unexpected token"@,
        ParseErrorV::TooFewElements => "must 2 elements or more"@,
        ParseErrorV::InvalidReceiver => "invalid receiver. support only '&self'"@,
        ParseErrorV::EmptyBlock => "empty block"@,
        ParseErrorV::MissingYield => "must end with a yield"@,
        ParseErrorV::Unrecognized => "unrecognized token structure"@,
    }
}

impl ParseError {
    /// The message that reports the error.
    pub fn message(&self) -> (r: String)
        ensures
            r@ == message_v(self@),
    {
        match self {
            ParseError::ExpectedIdent => "expected identifier".to_owned(),
            ParseError::KeywordFound(w) => {
                let mut r = "expected identifier, found keyword `".to_owned();
                r.append(w.as_str());
                r.append("`");
                r
            },
            ParseError::IdentAtEnd => "unexpected end of input, expected identifier".to_owned(),
            ParseError::ExpectedPunct(c) => {
                let mut r = "expected `".to_owned();
                push_char(&mut r, *c);
                r.append("`");
                r
            },
            ParseError::ExpectedYield => "expected `yield`".to_owned(),
            ParseError::YieldAtEnd => "unexpected end of input, expected `yield`".to_owned(),
            ParseError::ExpectedBraces => "expected curly braces".to_owned(),
            ParseError::BracesAtEnd => "unexpected end of input, expected curly braces".to_owned(),
            ParseError::Syntax(m) => m.clone(),
            ParseError::UnexpectedToken => "unexpected token".to_owned(),
            ParseError::TooFewElements => "must 2 elements or more".to_owned(),
            ParseError::InvalidReceiver => "invalid receiver. support only '&self'".to_owned(),
            ParseError::EmptyBlock => "empty block".to_owned(),
            ParseError::MissingYield => "must end with a yield".to_owned(),
            ParseError::Unrecognized => "unrecognized token structure".to_owned(),
        }
    }
}

/// The outcome of reading at a position, as a value: the thing read and the
/// position after it, or the error.
pub open spec fn res_v<T: View>(r: Result<(T, usize), ParseError>) -> Result<(T::V, int), ParseErrorV> {
    match r {
        Ok((v, j)) => Ok((v@, j as int)),
        Err(e) => Err(e@),
    }
}

/// The outcome of reading a whole input, as a value.
pub open spec fn whole_v<T: View>(r: Result<T, ParseError>) -> Result<T::V, ParseErrorV> {
    match r {
        Ok(v) => Ok(v@),
        Err(e) => Err(e@),
    }
}

/// A read at the start of an input of length `n` that must take all of it.
pub open spec fn whole<T>(r: Result<(T, int), ParseErrorV>, n: int) -> Result<T, ParseErrorV> {
    match r {
        Ok((v, j)) => if j == n {
            Ok(v)
        } else {
            Err(ParseErrorV::UnexpectedToken)
        },
        Err(e) => Err(e),
    }
}

/// The tokens of a source text, as Rust's tokenizer reads them (`None`
/// where it refuses the text).
pub fn tokenize(text: &str) -> (r: Option<Vec<Tok>>)
    ensures
        r is None <==> lexed(text@) is None,
        r matches Some(v) ==> lexed(text@) == Some(toks_v(v@)),
{
    lex(text)
}

// ---------------------------------------------------------------------------
// Rendering tokens as source text

pub open spec fn open_char(d: Delim) -> char {
    match d {
        Delim::Paren => '(',
        Delim::Brace => '{',
        Delim::Bracket => '[',
    }
}

pub open spec fn close_char(d: Delim) -> char {
    match d {
        Delim::Paren => ')',
        Delim::Brace => '}',
        Delim::Bracket => ']',
    }
}

/// The text of one token: a joined punctuation character is followed by
/// nothing, every other token by a space.
pub open spec fn tok_text(t: TokV) -> Seq<char> {
    match t {
        TokV::Ident(s) => s.push(' '),
        TokV::Punct(c, j) => if j { seq![c] } else { seq![c, ' '] },
        TokV::Lit(s) => s.push(' '),
        TokV::Open(d) => seq![open_char(d), ' '],
        TokV::Close(d) => seq![close_char(d), ' '],
    }
}

/// The source text of a token sequence.
pub open spec fn render_v(s: Seq<TokV>) -> Seq<char>
    decreases s.len(),
{
    if s.len() == 0 {
        Seq::empty()
    } else {
        render_v(s.drop_last()) + tok_text(s.last())
    }
}

fn delim_chars(d: Delim) -> (r: (char, char))
    ensures
        r == (open_char(d), close_char(d)),
{
    match d {
        Delim::Paren => ('(', ')'),
        Delim::Brace => ('{', '}'),
        Delim::Bracket => ('[', ']'),
    }
}

/// The source text of the tokens of `s` from `from` on.
pub fn render(s: &Vec<Tok>, from: usize) -> (r: String)
    requires
        from <= s.len(),
    ensures
        r@ == render_v(toks_v(s@).subrange(from as int, s.len() as int)),
{
    let ghost sv = toks_v(s@);
    let mut out = String::new();
    let mut i = from;
    assert(sv.subrange(from as int, from as int) =~= Seq::<TokV>::empty());
    while i < s.len()
        invariant
            from <= i <= s.len(),
            sv == toks_v(s@),
            out@ == render_v(sv.subrange(from as int, i as int)),
        decreases s.len() - i,
    {
        let ghost before = out@;
        match &s[i] {
            Tok::Ident(x) => {
                out.append(x.as_str());
                push_char(&mut out, ' ');
            },
            Tok::Punct(c, j) => {
                push_char(&mut out, *c);
                if !*j {
                    push_char(&mut out, ' ');
                }
            },
            Tok::Lit(x) => {
                out.append(x.as_str());
                push_char(&mut out, ' ');
            },
            Tok::Open(d) => {
                let (o, _) = delim_chars(*d);
                push_char(&mut out, o);
                push_char(&mut out, ' ');
            },
            Tok::Close(d) => {
                let (_, c) = delim_chars(*d);
                push_char(&mut out, c);
                push_char(&mut out, ' ');
            },
        }
        assert(out@ =~= before + tok_text(sv[i as int]));
        assert(sv.subrange(from as int, i + 1).drop_last() =~= sv.subrange(from as int, i as int));
        i = i + 1;
    }
    out
}

// ---------------------------------------------------------------------------
// Reading single tokens

/// Token `i` of `s` is the punctuation character `c`.
pub open spec fn punct_at(s: Seq<TokV>, i: int, c: char) -> bool {
    0 <= i < s.len() && (s[i] matches TokV::Punct(d, _) && d == c)
}

/// Token `i` of `s` is the word `w`.
pub open spec fn word_at(s: Seq<TokV>, i: int, w: Seq<char>) -> bool {
    0 <= i < s.len() && s[i] == TokV::Ident(w)
}

/// The identifier at `i`, read as `syn` reads one: a word that `syn`
/// refuses as an identifier is a keyword.
pub open spec fn ident_at(s: Seq<TokV>, i: int) -> Result<Seq<char>, ParseErrorV> {
    if i >= s.len() {
        Err(ParseErrorV::IdentAtEnd)
    } else if 0 <= i {
        match s[i] {
            TokV::Ident(x) => if accepts_ident(x) {
                Ok(x)
            } else {
                Err(ParseErrorV::KeywordFound(x))
            },
            _ => Err(ParseErrorV::ExpectedIdent),
        }
    } else {
        Err(ParseErrorV::ExpectedIdent)
    }
}

pub fn is_punct(s: &Vec<Tok>, i: usize, c: char) -> (r: bool)
    ensures
        r == punct_at(toks_v(s@), i as int, c),
        r ==> i < s.len(),
{
    if i < s.len() {
        match &s[i] {
            Tok::Punct(d, _) => *d == c,
            _ => false,
        }
    } else {
        false
    }
}

pub fn is_word(s: &Vec<Tok>, i: usize, w: &str) -> (r: bool)
    ensures
        r == word_at(toks_v(s@), i as int, w@),
        r ==> i < s.len(),
{
    if i < s.len() {
        match &s[i] {
            Tok::Ident(x) => {
                let ww = w.to_owned();
                *x == ww
            },
            _ => false,
        }
    } else {
        false
    }
}

pub fn read_ident(s: &Vec<Tok>, i: usize) -> (r: Result<String, ParseError>)
    ensures
        match r {
            Ok(x) => ident_at(toks_v(s@), i as int) == Ok::<Seq<char>, ParseErrorV>(x@),
            Err(e) => ident_at(toks_v(s@), i as int) == Err::<Seq<char>, ParseErrorV>(e@),
        },
        r is Ok ==> i < s.len(),
{
    if i < s.len() {
        match &s[i] {
            Tok::Ident(x) => if syn_accepts_ident(x.as_str()) {
                Ok(x.clone())
            } else {
                Err(ParseError::KeywordFound(x.clone()))
            },
            _ => Err(ParseError::ExpectedIdent),
        }
    } else {
        Err(ParseError::IdentAtEnd)
    }
}

// ---------------------------------------------------------------------------
// Groups

/// Scanning from `j` with `depth` groups open, the index of the marker that
/// closes the outermost of them.
pub open spec fn close_of(s: Seq<TokV>, j: int, depth: nat) -> Option<int>
    decreases s.len() - j,
{
    if j < 0 || j >= s.len() {
        None
    } else {
        match s[j] {
            TokV::Open(_) => close_of(s, j + 1, depth + 1),
            TokV::Close(_) => if depth <= 1 {
                Some(j)
            } else {
                close_of(s, j + 1, (depth - 1) as nat)
            },
            _ => close_of(s, j + 1, depth),
        }
    }
}

/// The index of the marker that closes the group opened at `open`.
pub fn find_close(s: &Vec<Tok>, open: usize) -> (r: Option<usize>)
    requires
        open < s.len(),
    ensures
        r matches Some(c) ==> close_of(toks_v(s@), open + 1, 1) == Some(c as int),
        r is None ==> close_of(toks_v(s@), open + 1, 1) is None,
{
    let ghost sv = toks_v(s@);
    let mut j = open + 1;
    let mut depth: usize = 1;
    while j < s.len()
        invariant
            open < j <= s.len(),
            sv == toks_v(s@),
            1 <= depth <= j - open,
            close_of(sv, j as int, depth as nat) == close_of(sv, open + 1, 1),
        decreases s.len() - j,
    {
        match &s[j] {
            Tok::Open(_) => {
                depth = depth + 1;
            },
            Tok::Close(_) => {
                if depth <= 1 {
                    return Some(j);
                }
                depth = depth - 1;
            },
            _ => {},
        }
        j = j + 1;
    }
    None
}

// ---------------------------------------------------------------------------
// Comparing tokens up to spacing

/// A token with its spacing forgotten.
pub open spec fn shape(t: TokV) -> TokV {
    match t {
        TokV::Punct(c, _) => TokV::Punct(c, false),
        _ => t,
    }
}

/// Two token sequences that differ at most in the spacing of punctuation.
pub open spec fn same_shape(a: Seq<TokV>, b: Seq<TokV>) -> bool {
    a.len() == b.len() && forall|k: int| 0 <= k < a.len() ==> #[trigger] shape(a[k]) == shape(b[k])
}

fn same_shape_tok(a: &Tok, b: &Tok) -> (r: bool)
    ensures
        r == (shape(a@) == shape(b@)),
{
    match (a, b) {
        (Tok::Punct(x, _), Tok::Punct(y, _)) => *x == *y,
        _ => a.same(b),
    }
}

/// Whether the tokens of `a` from `from` on have the shape of `b`.
pub fn same_shape_from(a: &Vec<Tok>, from: usize, b: &Vec<Tok>) -> (r: bool)
    requires
        from <= a.len(),
    ensures
        r == same_shape(toks_v(a@).subrange(from as int, a.len() as int), toks_v(b@)),
{
    let ghost av = toks_v(a@).subrange(from as int, a.len() as int);
    let ghost bv = toks_v(b@);
    if a.len() - from != b.len() {
        return false;
    }
    let mut k: usize = 0;
    while k < b.len()
        invariant
            a.len() - from == b.len(),
            from <= a.len(),
            av == toks_v(a@).subrange(from as int, a.len() as int),
            bv == toks_v(b@),
            k <= b.len(),
            forall|m: int| 0 <= m < k ==> #[trigger] shape(av[m]) == shape(bv[m]),
        decreases b.len() - k,
    {
        if !same_shape_tok(&a[from + k], &b[k]) {
            assert(!(shape(av[k as int]) == shape(bv[k as int])));
            return false;
        }
        k = k + 1;
    }
    true
}

// ---------------------------------------------------------------------------
// Reading Rust syntax with syn at a position

/// Where a read by `syn` that started at `i` stopped: the text it left
/// unread must tokenize to the shape of the input's tokens from some `k` on,
/// and `k` is the answer.
pub open spec fn step_after(rest: Result<Seq<char>, Seq<char>>, s: Seq<TokV>, i: int) -> Result<int, ParseErrorV> {
    match rest {
        Err(m) => Err(ParseErrorV::Syntax(m)),
        Ok(text) => match lexed(text) {
            Some(r) => if r.len() <= s.len() - i && same_shape(s.subrange(s.len() - r.len(), s.len() as int), r) {
                Ok(s.len() - r.len())
            } else {
                Err(ParseErrorV::Unrecognized)
            },
            None => Err(ParseErrorV::Unrecognized),
        },
    }
}

pub fn step_after_exec(rest: Result<String, String>, s: &Vec<Tok>, i: usize) -> (r: Result<usize, ParseError>)
    requires
        i <= s.len(),
    ensures
        match r {
            Ok(k) => step_after(text_result(rest), toks_v(s@), i as int) == Ok::<int, ParseErrorV>(k as int),
            Err(e) => step_after(text_result(rest), toks_v(s@), i as int) == Err::<int, ParseErrorV>(e@),
        },
{
    match rest {
        Err(m) => Err(ParseError::Syntax(m)),
        Ok(text) => match lex(text.as_str()) {
            Some(r) => {
                if r.len() <= s.len() - i {
                    let k = s.len() - r.len();
                    if same_shape_from(s, k, &r) {
                        Ok(k)
                    } else {
                        Err(ParseError::Unrecognized)
                    }
                } else {
                    Err(ParseError::Unrecognized)
                }
            },
            None => Err(ParseError::Unrecognized),
        },
    }
}

} // verus!
