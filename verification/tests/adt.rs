use macuru::adt::{AdtType, ElementType, ElementTypeParam, Signature};
use macuru::expand::{adt_generate, edit_self_return_type};
use macuru::grammar::{render, tokenize, ParseError};
use macuru::tokens::Tok;

fn toks(text: &str) -> Vec<Tok> {
    tokenize(text).unwrap()
}

fn same(actual: Vec<Tok>, expected: &str) {
    let expected = toks(expected);
    assert_eq!(render(&actual, 0), render(&expected, 0));
    assert_eq!(actual, expected);
}

fn ident(name: &str) -> Vec<Tok> {
    vec![Tok::Ident(name.to_string())]
}

fn parse_func(text: &str) -> Signature {
    Signature::parse(&toks(text)).unwrap()
}

#[test]
fn element_typeparam() {
    if let Ok(x) = ElementTypeParam::parse(&toks("<A, B, C>")) {
        assert_eq!(3, x.params.len());
        same(x.to_tokens(), "<A, B, C>");
    } else {
        assert!(false, "parse error");
    }
}

#[test]
fn element_typeparam_last_comma() {
    let r = ElementTypeParam::parse(&toks("<A, B,>"));
    assert!(r.is_err());
}

#[test]
fn element_typeparam_restrict() {
    let r = ElementTypeParam::parse(&toks("<A, B, C: Clone>"));
    assert!(r.is_err());
}

#[test]
fn element_basic() {
    if let Ok(x) = ElementType::parse(&toks("Elem1")) {
        assert_eq!("Elem1", x.ident);
        assert!(x.type_param.is_none());
        same(x.to_tokens(), "Elem1");
    } else {
        assert!(false, "parse error");
    }
}

#[test]
fn element_generics() {
    if let Ok(x) = ElementType::parse(&toks("Elem1<A, B>")) {
        assert_eq!("Elem1", x.ident);
        assert!(x.type_param.is_some());
        same(x.to_tokens(), "Elem1<A, B>");
    } else {
        assert!(false, "parse error");
    }
}

#[test]
fn single_type() {
    let r = AdtType::parse(&toks("Data = Data1"));
    assert!(r.is_err());
}

#[test]
fn two_types() {
    let r = AdtType::parse(&toks("Data = Data1 | Data2"));
    if let Ok(a) = r {
        assert_eq!("Data", a.name);
        assert_eq!(2, a.elements.len());
        same(a.elements.get(0).unwrap().to_tokens(), "Data1");
        same(a.elements.get(1).unwrap().to_tokens(), "Data2");
        assert!(a.generics.is_none());
        assert!(a.derive_def.is_none());
        assert!(a.trait_def.is_none());
    } else {
        assert!(false, "parse error");
    }
}

#[test]
fn generics_enum() {
    let r = AdtType::parse(&toks("Data<T> = Elem1 | Elem2"));
    assert!(r.is_ok());
    let t = r.unwrap();
    if let Some(g) = t.generics {
        assert_eq!(1, g.params.len());
        same(g.tokens, "<T>");
    } else {
        assert!(false, "none generics")
    }
}

#[test]
fn generics_enum_type_params() {
    let r = AdtType::parse(&toks("Data<A, B, C: Clone> = Elem1 | Elem2"));
    assert!(r.is_ok());
    let t = r.unwrap();
    if let Some(g) = t.generics {
        assert_eq!(3, g.params.len());
        same(g.tokens, "<A, B, C: Clone>");
    } else {
        assert!(false, "none generics")
    }
}

#[test]
fn generics_enum_with_where() {
    let r = AdtType::parse(&toks("Data<A, B> where = Elem1 | Elem2"));
    assert!(r.is_err());
}

#[test]
fn generics_enum_with_where_single() {
    let r = AdtType::parse(&toks("Data<A> where A: Debug = Elem1 | Elem2"));
    assert!(r.is_err());
}

#[test]
fn generics_element() {
    let r = AdtType::parse(&toks("Data = Elem1<i32> | Elem2"));
    if let Ok(a) = r {
        assert_eq!(2, a.elements.len());
        let el1 = a.elements.get(0).unwrap();
        assert_eq!("Elem1", el1.ident);
        same(el1.to_tokens(), "Elem1<i32>");
        let el2 = a.elements.get(1).unwrap();
        same(el2.to_tokens(), "Elem2");
    } else {
        assert!(false, "parse error");
    }
}

#[test]
fn many_types() {
    let r = AdtType::parse(&toks("Data = Data1 | Data2 | Data3 | Data4"));
    assert!(r.is_ok());
}

#[test]
fn lacked_type() {
    let r1 = AdtType::parse(&toks("Data = Data1 |"));
    assert!(r1.is_err());
    let r2 = AdtType::parse(&toks("Data = Data1 | Data2 |"));
    assert!(r2.is_err());
}

#[test]
fn with_single_func_no_trait_name() {
    let r = AdtType::parse(&toks(
        "Data = Data1 | Data2 with {
            fn func1(&self, p: isize) -> String;
        }",
    ));
    assert!(r.is_err());
}

#[test]
fn single_derive() {
    let r = AdtType::parse(&toks("Data = Data1 | Data2 derive Clone"));
    if let Ok(a) = r {
        assert!(a.derive_def.is_some());
        let d = a.derive_def.unwrap();
        assert_eq!("Clone", d.derives.get(0).unwrap());
    } else {
        assert!(false, "parse error");
    }
}

#[test]
fn empty_derive() {
    let r = AdtType::parse(&toks("Data = Data1 | Data2 derive"));
    assert!(r.is_err());
}

#[test]
fn empty_derive_and_with() {
    let r = AdtType::parse(&toks("Data = Data1 | Data2 derive with DataImpl {}"));
    assert!(r.is_err());
}

#[test]
fn single_type_derive() {
    let r = AdtType::parse(&toks("Data = Data1 derive Debug"));
    assert!(r.is_err());
}

#[test]
fn many_derives() {
    let r = AdtType::parse(&toks("Data = Data1 | Data2 derive Clone, Debug, PartialEq"));
    if let Ok(a) = r {
        assert!(a.derive_def.is_some());
        let d = a.derive_def.unwrap();
        assert_eq!(3, d.derives.len());
        assert_eq!("Clone", d.derives.get(0).unwrap());
        assert_eq!("Debug", d.derives.get(1).unwrap());
        assert_eq!("PartialEq", d.derives.get(2).unwrap());
    } else {
        assert!(false, "parse error");
    }
}

#[test]
fn derive_and_with() {
    let r = AdtType::parse(&toks(
        "Data = Data1 | Data2 derive Clone with DataImpl {
            fn func1(&self, p: isize) -> String;
        }",
    ));
    if let Ok(a) = r {
        assert_eq!("Data", a.name);
        assert_eq!(2, a.elements.len());
        assert!(a.derive_def.is_some());
        assert_eq!(1, a.derive_def.unwrap().derives.len());
        assert!(a.trait_def.is_some());
    } else {
        assert!(false);
    }
}

#[test]
fn many_derives_and_with() {
    let r = AdtType::parse(&toks(
        "Data = Data1 | Data2 derive Clone, Debug, PartialEq with DataImpl {
            fn func1(&self, p: isize) -> String;
        }",
    ));
    if let Ok(a) = r {
        assert_eq!("Data", a.name);
        assert_eq!(2, a.elements.len());
        assert!(a.derive_def.is_some());
        assert_eq!(3, a.derive_def.unwrap().derives.len());
        assert!(a.trait_def.is_some());
    } else {
        assert!(false);
    }
}

#[test]
fn with_generics_trait() {
    let r = AdtType::parse(&toks(
        "Data = Data1 | Data2 with DataFunc<A, B> {
            fn func1(&self, p: T) -> String;
        }",
    ));
    if let Ok(a) = r {
        assert!(a.trait_def.is_some());
        let tr = a.trait_def.unwrap();
        same(tr.generics.unwrap().tokens, "<A, B>");
    } else {
        assert!(false, "parse error");
    }
}

#[test]
fn with_generics_trait_where() {
    let r = AdtType::parse(&toks(
        "Data = Data1 | Data2 with DataFunc<A, B>
        where
            A: Clone,
            B: Clone + Copy + PartialEq,
        {
            fn func1(&self, p: T) -> String;
        }",
    ));
    if let Ok(a) = r {
        assert!(a.trait_def.is_some());
        let tr = a.trait_def.unwrap();
        same(
            tr.where_clause.unwrap(),
            "where
                A: Clone,
                B: Clone + Copy + PartialEq,",
        );
    } else {
        assert!(false, "parse error");
    }
}

#[test]
fn with_single_func() {
    let r = AdtType::parse(&toks(
        "Data = Data1 | Data2 with DataImpl {
            fn func1(&self, p: isize) -> String;
        }",
    ));
    if let Ok(a) = r {
        assert_eq!("Data", a.name);
        assert_eq!(2, a.elements.len());
        assert!(a.trait_def.is_some());
        let tr = a.trait_def.unwrap();
        assert_eq!("DataImpl", tr.name);
        assert_eq!(1, tr.functions.len());
        same(tr.functions.get(0).unwrap().to_tokens(), "fn func1(&self, p: isize) -> String;");
    } else {
        assert!(false, "parse error");
    }
}

#[test]
fn with_generics_func() {
    let r = AdtType::parse(&toks(
        "Data = Data1 | Data2 with DataImpl {
            fn func1<T>(&self, p: T) -> String;
        }",
    ));
    if let Ok(a) = r {
        assert_eq!("Data", a.name);
        assert_eq!(2, a.elements.len());
        assert!(a.trait_def.is_some());
        let tr = a.trait_def.unwrap();
        assert_eq!("DataImpl", tr.name);
        assert_eq!(1, tr.functions.len());
        same(tr.functions.get(0).unwrap().to_tokens(), "fn func1<T>(&self, p: T) -> String;");
    } else {
        assert!(false, "parse error");
    }
}

#[test]
fn with_two_funcs() {
    let r = AdtType::parse(&toks(
        "Data = Data1 | Data2 with DataFunc {
            fn func1(&self, p: isize) -> String;
            fn func2(&self, s: String, b: bool) -> Self;
        }",
    ));
    if let Ok(a) = r {
        assert_eq!("Data", a.name);
        assert_eq!(2, a.elements.len());
        assert!(a.trait_def.is_some());
        let tr = a.trait_def.unwrap();
        assert_eq!("DataFunc", tr.name);
        assert_eq!(2, tr.functions.len());
        same(tr.functions.get(0).unwrap().to_tokens(), "fn func1(&self, p: isize) -> String;");
        same(tr.functions.get(1).unwrap().to_tokens(), "fn func2(&self, s: String, b: bool) -> Self;");
    } else {
        assert!(false, "parse error");
    }
}

#[test]
fn single_type_with_func() {
    let r = AdtType::parse(&toks(
        "Data = Data1 with DataImpl {
            fn func1(&self) -> Self;
        }",
    ));
    assert!(r.is_err());
}

#[test]
fn single_type_with_derive_and_func() {
    let r = AdtType::parse(&toks(
        "Data = Data1 derive Debug with DataImpl {
            fn func1(&self) -> Self;
        }",
    ));
    assert!(r.is_err());
}

#[test]
fn with_empty_func() {
    let r = AdtType::parse(&toks(
        "Data = Data1 | Data2 with DataImpl {
        }",
    ));
    if let Ok(a) = r {
        assert_eq!("Data", a.name);
        assert_eq!(2, a.elements.len());
        assert!(a.trait_def.is_none());
    } else {
        assert!(false, "parse error");
    }
}

#[test]
fn with_include_noself_func() {
    let r = AdtType::parse(&toks(
        "Data = Data1 | Data2 with DataFunc {
            fn func1(&self, p: isize) -> String;
            fn func2(s: String) -> Self;
        }",
    ));
    assert!(r.is_err());
}

#[test]
fn with_include_mut_self_func() {
    let r = AdtType::parse(&toks(
        "Data = Data1 | Data2 with DataImpl {
            fn func1(&self, p: isize) -> String;
            fn func2(&mut self) -> Self;
        }",
    ));
    assert!(r.is_err());
}

#[test]
fn with_include_owned_self_func() {
    let r = AdtType::parse(&toks(
        "Data = Data1 | Data2 with DataImpl {
            fn func1(&self, p: isize) -> String;
            fn func2(self, a: String, b: bool) -> Self;
        }",
    ));
    assert!(r.is_err());
}

#[test]
fn return_type_with_no_self() {
    let name = ident("TEST");
    let f1 = parse_func("fn func1() -> bool");
    same(edit_self_return_type(&f1, &name).to_tokens(), "fn func1() -> bool");
    let f2 = parse_func("fn func1() -> Option<(bool, String, i32)>");
    same(
        edit_self_return_type(&f2, &name).to_tokens(),
        "fn func1() -> Option<(bool, String, i32)>",
    );
}

#[test]
fn return_type_with_only_self() {
    let name = ident("TEST");
    let f1 = parse_func("fn func1() -> Self");
    same(edit_self_return_type(&f1, &name).to_tokens(), "fn func1() -> TEST");
}

#[test]
fn return_type_with_tuple_in_self() {
    let name = ident("TEST");
    let f1 = parse_func("fn func1() -> (Self,)");
    same(edit_self_return_type(&f1, &name).to_tokens(), "fn func1() -> (TEST,)");
    let f2 = parse_func("fn func2() -> (bool, Self, i32)");
    same(edit_self_return_type(&f2, &name).to_tokens(), "fn func2() -> (bool, TEST, i32)");
    let f3 = parse_func("fn func3() -> (bool, Self, (i32, String, Self))");
    same(
        edit_self_return_type(&f3, &name).to_tokens(),
        "fn func3() -> (bool, TEST, (i32, String, TEST))",
    );
}

#[test]
fn return_type_with_self_in_type() {
    let name = ident("TEST");
    let f1 = parse_func("fn func1() -> Result<Option<(bool, Self)>, ()>");
    same(
        edit_self_return_type(&f1, &name).to_tokens(),
        "fn func1() -> Result<Option<(bool, TEST)> , ()>",
    );
}

#[test]
fn return_type_with_self_in_fn() {
    let name = ident("TEST");
    let f1 = parse_func("fn func1() -> impl Fn(i32) -> Option<(bool, Self)>");
    same(
        edit_self_return_type(&f1, &name).to_tokens(),
        "fn func1() -> impl Fn(i32) -> Option<(bool, TEST)>",
    );
}

const CONVERSIONS: &str = "
    impl From<Elem1> for Data {
        fn from(v: Elem1) -> Self {
            Self::Elem1_(v)
        }
    }

    impl TryFrom<Data> for Elem1 {
        type Error = ();

        fn try_from(v: Data) -> Result<Self, Self::Error> {
            if let Data::Elem1_(x) = v {
                Ok(x)
            } else {
                Err(())
            }
        }
    }

    impl From<Elem2> for Data {
        fn from(v: Elem2) -> Self {
            Self::Elem2_(v)
        }
    }

    impl TryFrom<Data> for Elem2 {
        type Error = ();

        fn try_from(v: Data) -> Result<Self, Self::Error> {
            if let Data::Elem2_(x) = v {
                Ok(x)
            } else {
                Err(())
            }
        }
    }
";

#[test]
fn adt_generate_with_two_types() {
    let r = adt_generate(&toks("Data = Elem1 | Elem2"));
    if let Ok(t) = r {
        let expected = format!(
            "pub enum Data {{
                Elem1_(Elem1),
                Elem2_(Elem2),
            }}
            {}",
            CONVERSIONS
        );
        same(t, &expected);
    } else {
        assert!(false, "failed adt_proc")
    }
}

#[test]
fn adt_generate_with_two_types_and_derive() {
    let r = adt_generate(&toks("Data = Elem1 | Elem2 derive Clone, Debug"));
    if let Ok(t) = r {
        let expected = format!(
            "#[derive(Clone, Debug)]
            pub enum Data {{
                Elem1_(Elem1),
                Elem2_(Elem2),
            }}
            {}",
            CONVERSIONS
        );
        same(t, &expected);
    } else {
        assert!(false, "failed adt_proc")
    }
}

#[test]
fn adt_generate_with_void_func() {
    let r = adt_generate(&toks(
        "Data = Elem1 | Elem2 with DataImpl {
            fn func1(&self, a: isize, b: String);
        }",
    ));
    if let Ok(t) = r {
        let expected = format!(
            "pub enum Data {{
                Elem1_(Elem1),
                Elem2_(Elem2),
            }}

            pub trait DataImpl {{
                fn func1(&self, a: isize, b: String);
            }}

            impl DataImpl for Data {{
                fn func1(&self, a: isize, b: String) {{
                    match self {{
                        Self::Elem1_(x) => DataImpl::func1(x, a, b),
                        Self::Elem2_(x) => DataImpl::func1(x, a, b),
                    }}
                }}
            }}
            {}",
            CONVERSIONS
        );
        same(t, &expected);
    } else {
        assert!(false)
    }
}

#[test]
fn adt_generate_with_void_func_and_derive() {
    let r = adt_generate(&toks(
        "Data = Elem1 | Elem2 derive Debug, Clone with DataImpl {
            fn func1(&self, a: isize, b: String);
        }",
    ));
    if let Ok(t) = r {
        let expected = format!(
            "#[derive(Debug, Clone)]
            pub enum Data {{
                Elem1_(Elem1),
                Elem2_(Elem2),
            }}

            pub trait DataImpl {{
                fn func1(&self, a: isize, b: String);
            }}

            impl DataImpl for Data {{
                fn func1(&self, a: isize, b: String) {{
                    match self {{
                        Self::Elem1_(x) => DataImpl::func1(x, a, b),
                        Self::Elem2_(x) => DataImpl::func1(x, a, b),
                    }}
                }}
            }}
            {}",
            CONVERSIONS
        );
        same(t, &expected);
    } else {
        assert!(false)
    }
}

#[test]
fn adt_generate_with_multi_funcs() {
    let r = adt_generate(&toks(
        "Data = Elem1 | Elem2 with DataFunc {
            fn func1(&self);
            fn func2(&self, a: isize) -> bool;
        }",
    ));
    if let Ok(t) = r {
        let expected = format!(
            "pub enum Data {{
                Elem1_(Elem1),
                Elem2_(Elem2),
            }}

            pub trait DataFunc {{
                fn func1(&self);
                fn func2(&self, a: isize) -> bool;
            }}

            impl DataFunc for Data {{
                fn func1(&self) {{
                    match self {{
                        Self::Elem1_(x) => DataFunc::func1(x),
                        Self::Elem2_(x) => DataFunc::func1(x),
                    }}
                }}

                fn func2(&self, a: isize) -> bool {{
                    match self {{
                        Self::Elem1_(x) => DataFunc::func2(x, a),
                        Self::Elem2_(x) => DataFunc::func2(x, a),
                    }}
                }}
            }}
            {}",
            CONVERSIONS
        );
        same(t, &expected);
    } else {
        assert!(false)
    }
}

#[test]
fn adt_generate_with_self_return_func_and_derive() {
    let r = adt_generate(&toks(
        "Data = Elem1 | Elem2 derive Clone, Debug with DataFunc {
            fn func1(&self);
            fn func2(&self, a: isize) -> Self;
            fn func3(&self, a: String, b: bool) -> (Self, isize);
            fn func4(&self, a: f32) -> Result<(Self, String, isize), ()>;
        }",
    ));
    if let Ok(t) = r {
        let expected = format!(
            "#[derive(Clone, Debug)]
            pub enum Data {{
                Elem1_(Elem1),
                Elem2_(Elem2),
            }}

            pub trait DataFunc {{
                fn func1(&self);
                fn func2(&self, a: isize) -> Data;
                fn func3(&self, a: String, b: bool) -> (Data, isize);
                fn func4(&self, a: f32) -> Result<(Data, String, isize), ()> ;
            }}

            impl DataFunc for Data {{
                fn func1(&self) {{
                    match self {{
                        Self::Elem1_(x) => DataFunc::func1(x),
                        Self::Elem2_(x) => DataFunc::func1(x),
                    }}
                }}

                fn func2(&self, a: isize) -> Data {{
                    match self {{
                        Self::Elem1_(x) => DataFunc::func2(x, a),
                        Self::Elem2_(x) => DataFunc::func2(x, a),
                    }}
                }}

                fn func3(&self, a: String, b: bool) -> (Data, isize) {{
                    match self {{
                        Self::Elem1_(x) => DataFunc::func3(x, a, b),
                        Self::Elem2_(x) => DataFunc::func3(x, a, b),
                    }}
                }}

                fn func4(&self, a: f32) -> Result<(Data, String, isize), ()> {{
                    match self {{
                        Self::Elem1_(x) => DataFunc::func4(x, a),
                        Self::Elem2_(x) => DataFunc::func4(x, a),
                    }}
                }}
            }}
            {}",
            CONVERSIONS
        );
        same(t, &expected);
    } else {
        assert!(false)
    }
}

#[test]
fn refused_inputs_name_their_reason() {
    let err = |text: &str| AdtType::parse(&toks(text)).err().unwrap();
    assert_eq!(ParseError::ExpectedIdent, err("= A | B"));
    assert_eq!(ParseError::KeywordFound("fn".to_string()), err("fn = A | B"));
    assert_eq!(ParseError::IdentAtEnd, err("Data = A | B derive"));
    assert_eq!(ParseError::IdentAtEnd, err("Data ="));
    assert_eq!(ParseError::ExpectedPunct('='), err("Data A | B"));
    assert_eq!(ParseError::ExpectedPunct('|'), err("Data = A B"));
    assert_eq!(ParseError::BracesAtEnd, err("Data = A | B with T"));
    assert_eq!(ParseError::ExpectedBraces, err("Data = A | B with T ;"));
    assert_eq!(ParseError::TooFewElements, err("Data = A"));
    assert_eq!(ParseError::InvalidReceiver, err("Data = A | B with T { fn f(self); }"));
    assert_eq!(ParseError::UnexpectedToken, err("Data = A | B with T { fn f(&self); } extra"));
    assert!(matches!(err("Data = A | B with T { type X; }"), ParseError::Syntax(_)));
    assert!(matches!(err("Data<A B> = A | B"), ParseError::Syntax(_)));
    assert!(matches!(err("Data = A | B with T where A { fn f(&self); }"), ParseError::Syntax(_)));
    assert_eq!(ParseError::ExpectedPunct('>'), ElementTypeParam::parse(&toks("<A B>")).err().unwrap());
    assert_eq!(ParseError::ExpectedPunct('<'), ElementTypeParam::parse(&toks("A, B>")).err().unwrap());
}

#[test]
fn generated_for_empty_trait_and_elements_with_params() {
    let out = adt_generate(&toks("Data = Elem1<i32> | Elem2 with DataImpl { }")).unwrap();
    let expected = "pub enum Data { Elem1_(Elem1<i32>), Elem2_(Elem2), }
        impl From<Elem1<i32> > for Data { fn from(v: Elem1<i32>) -> Self { Self::Elem1_(v) } }
        impl TryFrom<Data> for Elem1<i32> { type Error = (); fn try_from(v: Data) -> Result<Self, Self::Error> { if let Data::Elem1_(x) = v { Ok(x) } else { Err(()) } } }
        impl From<Elem2> for Data { fn from(v: Elem2) -> Self { Self::Elem2_(v) } }
        impl TryFrom<Data> for Elem2 { type Error = (); fn try_from(v: Data) -> Result<Self, Self::Error> { if let Data::Elem2_(x) = v { Ok(x) } else { Err(()) } } }";
    same(out, expected);
}

#[test]
fn generated_method_keeps_attributes_and_default_body() {
    let out = adt_generate(&toks(
        "Data = A | B with T {
            /// Doc.
            fn f(&self, (p, q): (u8, u8)) -> Option<Self> { None }
        }",
    ))
    .unwrap();
    let expected = "pub enum Data { A_(A), B_(B), }
        pub trait T { #[doc = \" Doc.\"] fn f(&self, (p, q): (u8, u8)) -> Option<Data> { None } }
        impl T for Data { fn f(&self, (p, q): (u8, u8)) -> Option<Data> { match self { Self::A_(x) => T::f(x, (p, q)), Self::B_(x) => T::f(x, (p, q)), } } }";
    let expected = toks(expected);
    let head: Vec<Tok> = out[..expected.len()].to_vec();
    assert_eq!(render(&head, 0), render(&expected, 0));
    assert_eq!(head, expected);
}

#[test]
fn generics_kept_by_the_elements_and_the_trait() {
    let out = adt_generate(&toks(
        "Data<A, B> = Elem1<A> | Elem2<A, B> derive Debug with DataFunc<A, B>
        where
            A: Clone,
            B: Copy + Default + PartialOrd + Add<Output = B>,
        {
            fn id(&self) -> A;
            fn value(&self) -> B;
            fn add(&self, v: B) -> Option<Self>;
        }",
    ))
    .unwrap();
    let expected = "#[derive(Debug)]
        pub enum Data<A, B> { Elem1_(Elem1<A>), Elem2_(Elem2<A, B>), }
        pub trait DataFunc<A, B> {
            fn id(&self) -> A;
            fn value(&self) -> B;
            fn add(&self, v: B) -> Option<Data<A, B> > ;
        }
        impl<A, B> DataFunc<A, B> for Data<A, B>
        where
            A: Clone,
            B: Copy + Default + PartialOrd + Add<Output = B>,
        {
            fn id(&self) -> A {
                match self {
                    Self::Elem1_(x) => DataFunc:: <A, B> ::id(x),
                    Self::Elem2_(x) => DataFunc:: <A, B> ::id(x),
                }
            }
            fn value(&self) -> B {
                match self {
                    Self::Elem1_(x) => DataFunc:: <A, B> ::value(x),
                    Self::Elem2_(x) => DataFunc:: <A, B> ::value(x),
                }
            }
            fn add(&self, v: B) -> Option<Data<A, B> > {
                match self {
                    Self::Elem1_(x) => DataFunc:: <A, B> ::add(x, v),
                    Self::Elem2_(x) => DataFunc:: <A, B> ::add(x, v),
                }
            }
        }
        impl<A, B> From<Elem1<A> > for Data<A, B> { fn from(v: Elem1<A>) -> Self { Self::Elem1_(v) } }
        impl<A, B> TryFrom<Data<A, B> > for Elem1<A> { type Error = (); fn try_from(v: Data<A, B>) -> Result<Self, Self::Error> { if let Data::Elem1_(x) = v { Ok(x) } else { Err(()) } } }
        impl<A, B> From<Elem2<A, B> > for Data<A, B> { fn from(v: Elem2<A, B>) -> Self { Self::Elem2_(v) } }
        impl<A, B> TryFrom<Data<A, B> > for Elem2<A, B> { type Error = (); fn try_from(v: Data<A, B>) -> Result<Self, Self::Error> { if let Data::Elem2_(x) = v { Ok(x) } else { Err(()) } } }";
    same(out, expected);
}

#[test]
fn generics_unused_by_the_elements_stay_off_the_enum() {
    let out = adt_generate(&toks(
        "Data<A> = Elem1 | Elem2 with DataFunc<A> {
            fn func1(&self) -> A;
        }",
    ))
    .unwrap();
    let expected = "pub enum Data { Elem1_(Elem1), Elem2_(Elem2), }
        pub trait DataFunc<A> { fn func1(&self) -> A; }
        impl<A> DataFunc<A> for Data {
            fn func1(&self) -> A {
                match self {
                    Self::Elem1_(x) => DataFunc:: <A> ::func1(x),
                    Self::Elem2_(x) => DataFunc:: <A> ::func1(x),
                }
            }
        }
        impl From<Elem1> for Data { fn from(v: Elem1) -> Self { Self::Elem1_(v) } }
        impl TryFrom<Data> for Elem1 { type Error = (); fn try_from(v: Data) -> Result<Self, Self::Error> { if let Data::Elem1_(x) = v { Ok(x) } else { Err(()) } } }
        impl From<Elem2> for Data { fn from(v: Elem2) -> Self { Self::Elem2_(v) } }
        impl TryFrom<Data> for Elem2 { type Error = (); fn try_from(v: Data) -> Result<Self, Self::Error> { if let Data::Elem2_(x) = v { Ok(x) } else { Err(()) } } }";
    same(out, expected);
}

#[test]
fn generics_keep_their_bounds_and_order() {
    let out = adt_generate(&toks(
        "Stock<ID, QTY: Copy, INFO> = EmptyStock<ID> | NonEmptyStock<ID, QTY>",
    ))
    .unwrap();
    let expected = "pub enum Stock<ID, QTY: Copy> { EmptyStock_(EmptyStock<ID>), NonEmptyStock_(NonEmptyStock<ID, QTY>), }
        impl<ID, QTY: Copy> From<EmptyStock<ID> > for Stock<ID, QTY> { fn from(v: EmptyStock<ID>) -> Self { Self::EmptyStock_(v) } }
        impl<ID, QTY: Copy> TryFrom<Stock<ID, QTY> > for EmptyStock<ID> { type Error = (); fn try_from(v: Stock<ID, QTY>) -> Result<Self, Self::Error> { if let Stock::EmptyStock_(x) = v { Ok(x) } else { Err(()) } } }
        impl<ID, QTY: Copy> From<NonEmptyStock<ID, QTY> > for Stock<ID, QTY> { fn from(v: NonEmptyStock<ID, QTY>) -> Self { Self::NonEmptyStock_(v) } }
        impl<ID, QTY: Copy> TryFrom<Stock<ID, QTY> > for NonEmptyStock<ID, QTY> { type Error = (); fn try_from(v: Stock<ID, QTY>) -> Result<Self, Self::Error> { if let Stock::NonEmptyStock_(x) = v { Ok(x) } else { Err(()) } } }";
    same(out, expected);
    let g = AdtType::parse(&toks("Stock<ID, QTY: Copy, INFO> = EmptyStock<ID> | NonEmptyStock<ID, QTY>"))
        .unwrap()
        .generics
        .unwrap();
    assert_eq!(3, g.params.len());
    assert_eq!(toks("QTY"), g.params[1].name);
    assert_eq!(toks("QTY: Copy"), g.params[1].decl);
}

#[test]
fn element_binder_leaves_a_parameter_named_x_alone() {
    let out = adt_generate(&toks("Data = Elem1 | Elem2 with DataFunc { fn f(&self, x: i32) -> i32; }")).unwrap();
    let expected = "pub enum Data { Elem1_(Elem1), Elem2_(Elem2), }
        pub trait DataFunc { fn f(&self, x: i32) -> i32; }
        impl DataFunc for Data {
            fn f(&self, x: i32) -> i32 {
                match self {
                    Self::Elem1_(x__) => DataFunc::f(x__, x),
                    Self::Elem2_(x__) => DataFunc::f(x__, x),
                }
            }
        }";
    let expected = toks(expected);
    let head: Vec<Tok> = out[..expected.len()].to_vec();
    assert_eq!(render(&head, 0), render(&expected, 0));
    assert_eq!(head, expected);
    let tuple = adt_generate(&toks("Data = A | B with T { fn g(&self, (w, x): (u8, u8)); }")).unwrap();
    let text = render(&tuple, 0);
    assert!(text.contains("Self :: A_ ( x__ ) => T :: g ( x__ , ( w , x ) ) ,"));
}
