//! `adt!( Data = A | B with ShowData { fn show(&self) -> String; } )`

use crate::text::{decimal, i32_text};
use vstd::prelude::*;

verus! {

/// A number.
#[derive(Debug)]
pub struct A(pub i32);

/// A text.
#[derive(Debug)]
pub struct B(pub String);

/// Either an `A` or a `B`.
#[derive(Debug)]
pub enum Data {
    A_(A),
    B_(B),
}

impl A {
    /// `A` with `v` added.
    pub fn add(&self, v: i32) -> (r: A)
        requires
            i32::MIN <= self.0 + v <= i32::MAX,
        ensures
            r.0 == self.0 + v,
    {
        A(self.0 + v)
    }

    /// A `B` that holds the decimal text of the number.
    pub fn to_b(&self) -> (r: B)
        ensures
            r.0@ == decimal(self.0 as int),
    {
        B(i32_text(self.0))
    }
}

/// How each kind of data shows itself.
pub trait ShowData {
    spec fn shown(&self) -> Seq<char>;

    fn show(&self) -> (r: String)
        ensures
            r@ == self.shown(),
    ;
}

impl ShowData for A {
    /// `A(value=<number>)`.
    open spec fn shown(&self) -> Seq<char> {
        "A(value="@ + decimal(self.0 as int) + ")"@
    }

    fn show(&self) -> (r: String) {
        let mut r = "A(value=".to_owned();
        let n = i32_text(self.0);
        r.append(n.as_str());
        r.append(")");
        r
    }
}

impl ShowData for B {
    /// `B(value=<text>)`.
    open spec fn shown(&self) -> Seq<char> {
        "B(value="@ + self.0@ + ")"@
    }

    fn show(&self) -> (r: String) {
        let mut r = "B(value=".to_owned();
        r.append(self.0.as_str());
        r.append(")");
        r
    }
}

impl ShowData for Data {
    /// What the held element shows.
    open spec fn shown(&self) -> Seq<char> {
        match self {
            Data::A_(x) => x.shown(),
            Data::B_(x) => x.shown(),
        }
    }

    fn show(&self) -> (r: String) {
        match self {
            Data::A_(x) => ShowData::show(x),
            Data::B_(x) => ShowData::show(x),
        }
    }
}

impl From<A> for Data {
    fn from(v: A) -> (r: Self) {
        Data::A_(v)
    }
}

impl vstd::std_specs::convert::FromSpecImpl<A> for Data {
    open spec fn obeys_from_spec() -> bool {
        true
    }

    open spec fn from_spec(v: A) -> Self {
        Data::A_(v)
    }
}

impl From<B> for Data {
    fn from(v: B) -> (r: Self) {
        Data::B_(v)
    }
}

impl vstd::std_specs::convert::FromSpecImpl<B> for Data {
    open spec fn obeys_from_spec() -> bool {
        true
    }

    open spec fn from_spec(v: B) -> Self {
        Data::B_(v)
    }
}

impl TryFrom<Data> for A {
    type Error = ();

    fn try_from(v: Data) -> (r: Result<Self, Self::Error>) {
        if let Data::A_(x) = v {
            Ok(x)
        } else {
            Err(())
        }
    }
}

impl vstd::std_specs::convert::TryFromSpecImpl<Data> for A {
    open spec fn obeys_try_from_spec() -> bool {
        true
    }

    open spec fn try_from_spec(v: Data) -> Result<Self, ()> {
        match v {
            Data::A_(x) => Ok(x),
            _ => Err(()),
        }
    }
}

impl TryFrom<Data> for B {
    type Error = ();

    fn try_from(v: Data) -> (r: Result<Self, Self::Error>) {
        if let Data::B_(x) = v {
            Ok(x)
        } else {
            Err(())
        }
    }
}

impl vstd::std_specs::convert::TryFromSpecImpl<Data> for B {
    open spec fn obeys_try_from_spec() -> bool {
        true
    }

    open spec fn try_from_spec(v: Data) -> Result<Self, ()> {
        match v {
            Data::B_(x) => Ok(x),
            _ => Err(()),
        }
    }
}

} // verus!
