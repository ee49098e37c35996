use macuru::grammar::{render, tokenize, ParseError};
use macuru::mdo::{mdo_generate, MdoBind, MdoBlock, MdoStmt, MdoYield};
use macuru::tokens::Tok;

fn toks(text: &str) -> Vec<Tok> {
    tokenize(text).unwrap()
}

fn same(actual: Vec<Tok>, expected: &str) {
    let expected = toks(expected);
    assert_eq!(render(&actual, 0), render(&expected, 0));
    assert_eq!(actual, expected);
}

#[test]
fn parse_bind_vec() {
    if let Ok(x) = MdoBind::parse(&toks("x <- vec![1, 2]")) {
        assert!(x.var.is_some());
        assert_eq!("x", x.var.unwrap());
        same(x.expr, "vec![1, 2]");
    } else {
        assert!(false, "parse error");
    }
}

#[test]
fn parse_bind_variable() {
    if let Ok(x) = MdoBind::parse(&toks("x <- a")) {
        assert_eq!("x", x.var.unwrap());
        same(x.expr, "a");
    } else {
        assert!(false, "parse error");
    }
}

#[test]
fn parse_bind_variable_ignore() {
    if let Ok(x) = MdoBind::parse(&toks("_ <- a")) {
        assert!(x.var.is_none());
        same(x.expr, "a");
    } else {
        assert!(false, "parse error");
    }
}

#[test]
fn parse_yield_single() {
    if let Ok(x) = MdoYield::parse(&toks("yield x")) {
        same(x.expr, "x");
    } else {
        assert!(false, "parse error");
    }
}

#[test]
fn parse_yield_tuple() {
    if let Ok(x) = MdoYield::parse(&toks("yield (a, b, true)")) {
        same(x.expr, "(a, b, true)");
    } else {
        assert!(false, "parse error");
    }
}

#[test]
fn parse_stmt_bind() {
    if let Ok(MdoStmt::Bind(x)) = MdoStmt::parse(&toks("x <- vec![1, 2]")) {
        assert_eq!("x", x.var.unwrap());
        same(x.expr, "vec![1, 2]");
    } else {
        assert!(false, "parse error");
    }
}

#[test]
fn parse_stmt_yield() {
    if let Ok(MdoStmt::Yield(x)) = MdoStmt::parse(&toks("yield (a, b, true)")) {
        same(x.expr, "(a, b, true)");
    } else {
        assert!(false, "parse error");
    }
}

#[test]
fn parse_block() {
    let input = toks(
        "x <- a
        y <- vec![1, 2, 3]
        yield (x, y, true)",
    );
    if let Ok(x) = MdoBlock::parse(&input) {
        assert_eq!(3, x.stmts.len());
        if let Some(MdoStmt::Bind(b)) = x.stmts.first() {
            assert_eq!("x", b.var.clone().unwrap());
        } else {
            assert!(false, "ummatch bind")
        }
        if let Some(MdoStmt::Yield(y)) = x.stmts.last() {
            same(y.expr.clone(), "(x, y, true)");
        } else {
            assert!(false, "ummatch yield")
        }
    } else {
        assert!(false, "parse error")
    }
}

#[test]
fn parse_block_empty() {
    let r = MdoBlock::parse(&toks(""));
    assert!(r.is_err());
}

#[test]
fn parse_block_with_bind_end() {
    let r = MdoBlock::parse(&toks(
        "x <- a
        yield (x, 1)
        y <- b",
    ));
    assert!(r.is_err());
}

#[test]
fn block_errors_name_their_reason() {
    let err = |text: &str| MdoBlock::parse(&toks(text)).err().unwrap();
    assert_eq!(ParseError::EmptyBlock, err(""));
    assert_eq!(ParseError::MissingYield, err("x <- a"));
    assert_eq!(ParseError::ExpectedPunct('<'), err("x a yield x"));
    assert_eq!(ParseError::ExpectedPunct('-'), err("x < a yield x"));
    assert_eq!(ParseError::KeywordFound("fn".to_string()), err("fn <- a yield x"));
    assert!(matches!(err("x <- ; yield x"), ParseError::Syntax(_)));
    assert_eq!(ParseError::ExpectedYield, MdoYield::parse(&toks("x")).err().unwrap());
    assert_eq!(ParseError::YieldAtEnd, MdoYield::parse(&toks("")).err().unwrap());
    assert_eq!(ParseError::IdentAtEnd, MdoBind::parse(&toks("")).err().unwrap());
    assert_eq!(ParseError::UnexpectedToken, MdoBind::parse(&toks("x <- a b")).err().unwrap());
}

#[test]
fn block_with_yield_in_the_middle() {
    let b = MdoBlock::parse(&toks("yield 1 x <- f(y) + 2 yield x * 3")).unwrap();
    assert_eq!(3, b.stmts.len());
    assert!(b.stmts[0].is_yield());
    assert!(!b.stmts[1].is_yield());
    if let MdoStmt::Bind(x) = &b.stmts[1] {
        same(x.expr.clone(), "f(y) + 2");
    } else {
        assert!(false);
    }
}

#[test]
fn mdo_expands_to_nothing() {
    assert_eq!(Vec::<Tok>::new(), mdo_generate(&toks("x <- a yield x")).unwrap());
}
