//! `adt!(Data = Elem1 | Elem2)` and `adt!( Item = A | B with ItemImpl {
//! ... fn add(&self, value: isize) -> Self; ... } )`: the data types, and
//! the method of the trait that computes; the methods that print or format
//! with `Debug` are the application's.

use vstd::prelude::*;

verus! {

/// A number.
#[derive(Clone, Debug)]
pub struct Elem1(pub isize);

/// A named number.
#[derive(Clone, Debug)]
pub struct Elem2 {
    pub name: String,
    pub value: isize,
}

#[derive(Debug)]
pub enum Data {
    Elem1_(Elem1),
    Elem2_(Elem2),
}

/// A named item.
#[derive(Clone, Debug)]
pub struct A {
    pub name: String,
}

/// A named item with a number.
#[derive(Clone, Debug)]
pub struct B {
    pub name: String,
    pub value: isize,
}

#[derive(Debug)]
pub enum Item {
    A_(A),
    B_(B),
}

/// The value of an `Item`.
pub enum ItemV {
    A(Seq<char>),
    B(Seq<char>, int),
}

impl View for Item {
    type V = ItemV;

    open spec fn view(&self) -> ItemV {
        match self {
            Item::A_(a) => ItemV::A(a.name@),
            Item::B_(b) => ItemV::B(b.name@, b.value as int),
        }
    }
}

/// Adding `value`: an `A` stays as it is, a `B` adds it to its number.
pub open spec fn item_add(i: ItemV, value: int) -> ItemV {
    match i {
        ItemV::A(n) => ItemV::A(n),
        ItemV::B(n, v) => ItemV::B(n, v + value),
    }
}

/// The sum fits in an `isize`.
pub open spec fn can_add(i: ItemV, value: int) -> bool {
    match i {
        ItemV::A(_) => true,
        ItemV::B(_, v) => isize::MIN <= v + value <= isize::MAX,
    }
}

impl A {
    /// A copy of the item: adding leaves an `A` as it is.
    pub fn add(&self, value: isize) -> (r: A)
        ensures
            r.name@ == self.name@,
    {
        A { name: self.name.clone() }
    }
}

impl B {
    /// The item with `value` added to its number.
    pub fn add(&self, value: isize) -> (r: B)
        requires
            isize::MIN <= self.value + value <= isize::MAX,
        ensures
            r.name@ == self.name@,
            r.value == self.value + value,
    {
        B { name: self.name.clone(), value: self.value + value }
    }
}

impl Item {
    /// Hands `add` to the item held.
    pub fn add(&self, value: isize) -> (r: Item)
        requires
            can_add(self@, value as int),
        ensures
            r@ == item_add(self@, value as int),
    {
        match self {
            Item::A_(a) => Item::A_(a.add(value)),
            Item::B_(b) => Item::B_(b.add(value)),
        }
    }
}

impl From<Elem1> for Data {
    fn from(v: Elem1) -> (r: Self) {
        Data::Elem1_(v)
    }
}

impl vstd::std_specs::convert::FromSpecImpl<Elem1> for Data {
    open spec fn obeys_from_spec() -> bool {
        true
    }

    open spec fn from_spec(v: Elem1) -> Self {
        Data::Elem1_(v)
    }
}

impl From<Elem2> for Data {
    fn from(v: Elem2) -> (r: Self) {
        Data::Elem2_(v)
    }
}

impl vstd::std_specs::convert::FromSpecImpl<Elem2> for Data {
    open spec fn obeys_from_spec() -> bool {
        true
    }

    open spec fn from_spec(v: Elem2) -> Self {
        Data::Elem2_(v)
    }
}

impl TryFrom<Data> for Elem1 {
    type Error = ();

    fn try_from(v: Data) -> (r: Result<Self, Self::Error>) {
        if let Data::Elem1_(x) = v {
            Ok(x)
        } else {
            Err(())
        }
    }
}

impl vstd::std_specs::convert::TryFromSpecImpl<Data> for Elem1 {
    open spec fn obeys_try_from_spec() -> bool {
        true
    }

    open spec fn try_from_spec(v: Data) -> Result<Self, ()> {
        match v {
            Data::Elem1_(x) => Ok(x),
            _ => Err(()),
        }
    }
}

impl TryFrom<Data> for Elem2 {
    type Error = ();

    fn try_from(v: Data) -> (r: Result<Self, Self::Error>) {
        if let Data::Elem2_(x) = v {
            Ok(x)
        } else {
            Err(())
        }
    }
}

impl vstd::std_specs::convert::TryFromSpecImpl<Data> for Elem2 {
    open spec fn obeys_try_from_spec() -> bool {
        true
    }

    open spec fn try_from_spec(v: Data) -> Result<Self, ()> {
        match v {
            Data::Elem2_(x) => Ok(x),
            _ => Err(()),
        }
    }
}

impl From<A> for Item {
    fn from(v: A) -> (r: Self) {
        Item::A_(v)
    }
}

impl vstd::std_specs::convert::FromSpecImpl<A> for Item {
    open spec fn obeys_from_spec() -> bool {
        true
    }

    open spec fn from_spec(v: A) -> Self {
        Item::A_(v)
    }
}

impl From<B> for Item {
    fn from(v: B) -> (r: Self) {
        Item::B_(v)
    }
}

impl vstd::std_specs::convert::FromSpecImpl<B> for Item {
    open spec fn obeys_from_spec() -> bool {
        true
    }

    open spec fn from_spec(v: B) -> Self {
        Item::B_(v)
    }
}

impl TryFrom<Item> for A {
    type Error = ();

    fn try_from(v: Item) -> (r: Result<Self, Self::Error>) {
        if let Item::A_(x) = v {
            Ok(x)
        } else {
            Err(())
        }
    }
}

impl vstd::std_specs::convert::TryFromSpecImpl<Item> for A {
    open spec fn obeys_try_from_spec() -> bool {
        true
    }

    open spec fn try_from_spec(v: Item) -> Result<Self, ()> {
        match v {
            Item::A_(x) => Ok(x),
            _ => Err(()),
        }
    }
}

impl TryFrom<Item> for B {
    type Error = ();

    fn try_from(v: Item) -> (r: Result<Self, Self::Error>) {
        if let Item::B_(x) = v {
            Ok(x)
        } else {
            Err(())
        }
    }
}

impl vstd::std_specs::convert::TryFromSpecImpl<Item> for B {
    open spec fn obeys_try_from_spec() -> bool {
        true
    }

    open spec fn try_from_spec(v: Item) -> Result<Self, ()> {
        match v {
            Item::B_(x) => Ok(x),
            _ => Err(()),
        }
    }
}

/// Converting an element type into the enum and back gives it back, and
/// converting it back into the other element type is refused.
pub proof fn law_conversion_roundtrip(x: Elem1, y: Elem2)
    ensures
        <Elem1 as vstd::std_specs::convert::TryFromSpec<Data>>::try_from_spec(
            <Data as vstd::std_specs::convert::FromSpec<Elem1>>::from_spec(x),
        ) == Ok::<Elem1, ()>(x),
        <Elem2 as vstd::std_specs::convert::TryFromSpec<Data>>::try_from_spec(
            <Data as vstd::std_specs::convert::FromSpec<Elem1>>::from_spec(x),
        ) == Err::<Elem2, ()>(()),
        <Elem2 as vstd::std_specs::convert::TryFromSpec<Data>>::try_from_spec(
            <Data as vstd::std_specs::convert::FromSpec<Elem2>>::from_spec(y),
        ) == Ok::<Elem2, ()>(y),
        <Elem1 as vstd::std_specs::convert::TryFromSpec<Data>>::try_from_spec(
            <Data as vstd::std_specs::convert::FromSpec<Elem2>>::from_spec(y),
        ) == Err::<Elem1, ()>(()),
{
}

} // verus!
