use macuru::adt::{AdtTraitType, AdtType, Signature};
use macuru::examples::example2::A as A2;
use macuru::examples::example3::{EmptyStock, NonEmptyStock, Stock};
use macuru::expand::{adt_generate, edit_self_return_type, to_element_name};
use macuru::grammar::{render, tokenize, ParseError};
use macuru::tokens::Tok;

fn toks(text: &str) -> Vec<Tok> {
    tokenize(text).unwrap()
}

#[test]
fn variant_names_end_with_underscore() {
    assert_eq!("Elem1_", to_element_name(&"Elem1".to_string()));
    assert_eq!("type_", to_element_name(&"r#type".to_string()));
    assert_ne!(to_element_name(&"A".to_string()), to_element_name(&"B".to_string()));
}

#[test]
fn self_inside_macro_is_kept() {
    let sig = Signature::parse(&toks("fn f(&self) -> m!(Self)")).unwrap();
    let out = edit_self_return_type(&sig, &vec![Tok::Ident("Data".to_string())]);
    assert_eq!(toks("-> m!(Self)").len(), out.output.len());
    assert!(out.output.contains(&Tok::Ident("Self".to_string())));
    let sig2 = Signature::parse(&toks("fn f(&self) -> Vec<Self>")).unwrap();
    let out2 = edit_self_return_type(&sig2, &vec![Tok::Ident("Data".to_string())]);
    assert!(!out2.output.contains(&Tok::Ident("Self".to_string())));
    let again = edit_self_return_type(&out2, &vec![Tok::Ident("Data".to_string())]);
    assert_eq!(out2.output, again.output);
}

#[test]
fn signature_is_split_by_syn() {
    let sig = Signature::parse(&toks("fn f<T>(&'a self, (a, b): (u8, T), c: u8) -> Option<T> where T: Copy")).unwrap();
    assert_eq!("f", sig.name);
    assert_eq!(Some((true, false)), sig.receiver);
    assert_eq!(3, sig.args.len());
    assert!(sig.args[0].is_none());
    assert_eq!(toks("(a, b)").len(), sig.args[1].as_ref().unwrap().len());
    assert_eq!(toks("-> Option<T>").len(), sig.output.len());
    assert_eq!(toks("where T: Copy").len(), sig.where_clause.len());
    assert!(Signature::parse(&toks("fn f")).is_err());
}

#[test]
fn rendered_tokens_read_back() {
    let t = toks("a -> b::<c>(d, [e]) { 'x' } 'life");
    let again = tokenize(&render(&t, 0)).unwrap();
    assert_eq!(t, again);
    assert!(tokenize("(").is_none());
}

#[test]
fn accepted_definitions_have_two_elements() {
    assert!(AdtType::parse(&toks("D = A")).is_err());
    assert_eq!(3, AdtType::parse(&toks("D = A | B | C")).unwrap().elements.len());
    let a = AdtType::parse(&toks("D = A derive X | B")).unwrap();
    assert_eq!(2, a.elements.len());
    assert_eq!(1, a.derive_def.unwrap().derives.len());
}

#[test]
fn refusals_are_reported_in_syn_words() {
    assert_eq!("expected identifier, found keyword `fn`", ParseError::KeywordFound("fn".to_string()).message());
    assert_eq!("unexpected end of input, expected identifier", ParseError::IdentAtEnd.message());
    assert_eq!("unexpected end of input, expected curly braces", ParseError::BracesAtEnd.message());
    assert_eq!("expected `=`", ParseError::ExpectedPunct('=').message());
    let e = AdtType::parse(&toks("fn = A | B")).err().unwrap();
    assert_eq!("expected identifier, found keyword `fn`", e.message());
}

#[test]
fn trait_receivers_are_checked_for_every_trait() {
    let t = AdtTraitType::parse(&toks("T { fn f(&self); fn g(&self, x: u8) -> Self; }")).unwrap();
    assert_eq!(2, t.functions.len());
    for bad in ["T { fn f(&mut self); }", "T { fn f(self); }", "T { fn f(x: u8); }"] {
        assert_eq!(ParseError::InvalidReceiver, AdtTraitType::parse(&toks(bad)).err().unwrap());
    }
    let empty = AdtTraitType::parse(&toks("T { }")).unwrap();
    assert_eq!(0, empty.functions.len());
}

#[test]
fn derive_list_only_prepends_the_attribute() {
    let plain = adt_generate(&toks("Data = A | B with T { fn f(&self) -> Self; }")).unwrap();
    let derived = adt_generate(&toks("Data = A | B derive Debug, Clone with T { fn f(&self) -> Self; }")).unwrap();
    let mut expected = toks("#[derive(Debug, Clone)]");
    expected.extend(plain);
    assert_eq!(expected, derived);
}

#[test]
fn stock_restocks_add_up() {
    let e = EmptyStock("s".to_string());
    assert!(e.restock_with(0).is_none());
    let s1: NonEmptyStock<String, usize> = match e.restock_with(1).unwrap() {
        Stock::NonEmptyStock_(s) => s,
        Stock::EmptyStock_(_) => panic!("restocked stock is empty"),
    };
    assert_eq!(1, s1.qty);
    let s2 = match s1.restock_with(2).unwrap() {
        Stock::NonEmptyStock_(s) => s,
        Stock::EmptyStock_(_) => panic!("restocked stock is empty"),
    };
    assert_eq!(("s".to_string(), 3), (s2.id.clone(), s2.qty));
    assert!(s2.restock_with(0).is_none());
}

#[test]
fn derive_list_without_trait_only_prepends_the_attribute() {
    let plain = adt_generate(&toks("Data = A<T> | B")).unwrap();
    let derived = adt_generate(&toks("Data = A<T> | B derive Clone")).unwrap();
    let mut expected = toks("#[derive(Clone)]");
    expected.extend(plain);
    assert_eq!(expected, derived);
}

#[test]
fn numbers_are_written_in_decimal() {
    use_decimal(0, "0");
    use_decimal(7, "7");
    use_decimal(-45, "-45");
    use_decimal(1230, "1230");
    use_decimal(i32::MAX, "2147483647");
    use_decimal(i32::MIN, "-2147483648");
}

fn use_decimal(v: i32, text: &str) {
    assert_eq!(text, A2(v).to_b().0);
}
