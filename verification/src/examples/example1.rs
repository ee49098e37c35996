//! `adt!( Data = Empty | NonEmpty with DataFunc { fn add(&self, v: usize)
//! -> Option<Self>; fn remove(&self, v: usize) -> Option<Self>; } )`

use vstd::prelude::*;

verus! {

/// Nothing held yet, under a name.
#[derive(Clone, Debug)]
pub struct Empty(pub String);

/// A positive amount held under a name.
#[derive(Clone, Debug)]
pub struct NonEmpty {
    pub name: String,
    pub value: usize,
}

#[derive(Debug)]
pub enum Data {
    Empty_(Empty),
    NonEmpty_(NonEmpty),
}

/// The value of a `Data`.
pub enum DataV {
    Empty(Seq<char>),
    NonEmpty(Seq<char>, nat),
}

impl View for Data {
    type V = DataV;

    open spec fn view(&self) -> DataV {
        match self {
            Data::Empty_(e) => DataV::Empty(e.0@),
            Data::NonEmpty_(n) => DataV::NonEmpty(n.name@, n.value as nat),
        }
    }
}

pub open spec fn opt_data_v(d: Option<Data>) -> Option<DataV> {
    match d {
        Some(x) => Some(x@),
        None => None,
    }
}

/// Adding `v`: to an empty one, a positive `v` makes it hold `v`; to a
/// non-empty one, `v` is added to what it holds.
pub open spec fn data_add(d: DataV, v: nat) -> Option<DataV> {
    match d {
        DataV::Empty(n) => if v > 0 {
            Some(DataV::NonEmpty(n, v))
        } else {
            None
        },
        DataV::NonEmpty(n, x) => Some(DataV::NonEmpty(n, x + v)),
    }
}

/// Removing `v`: nothing from an empty one; from a non-empty one, less than
/// it holds leaves the rest, all it holds leaves it empty, more is refused.
pub open spec fn data_remove(d: DataV, v: nat) -> Option<DataV> {
    match d {
        DataV::Empty(_) => None,
        DataV::NonEmpty(n, x) => if x > v {
            Some(DataV::NonEmpty(n, (x - v) as nat))
        } else if x == v {
            Some(DataV::Empty(n))
        } else {
            None
        },
    }
}

pub trait DataFunc {
    spec fn value_of(&self) -> DataV;

    /// Adding would not overflow.
    spec fn can_add(&self, v: usize) -> bool;

    fn add(&self, v: usize) -> (r: Option<Data>)
        requires
            self.can_add(v),
        ensures
            opt_data_v(r) == data_add(self.value_of(), v as nat),
    ;

    fn remove(&self, v: usize) -> (r: Option<Data>)
        ensures
            opt_data_v(r) == data_remove(self.value_of(), v as nat),
    ;
}

impl DataFunc for Empty {
    open spec fn value_of(&self) -> DataV {
        DataV::Empty(self.0@)
    }

    open spec fn can_add(&self, v: usize) -> bool {
        true
    }

    fn add(&self, v: usize) -> (r: Option<Data>) {
        if v > 0 {
            Some(Data::NonEmpty_(NonEmpty { name: self.0.clone(), value: v }))
        } else {
            None
        }
    }

    fn remove(&self, _v: usize) -> (r: Option<Data>) {
        None
    }
}

impl DataFunc for NonEmpty {
    open spec fn value_of(&self) -> DataV {
        DataV::NonEmpty(self.name@, self.value as nat)
    }

    open spec fn can_add(&self, v: usize) -> bool {
        self.value + v <= usize::MAX
    }

    fn add(&self, v: usize) -> (r: Option<Data>) {
        Some(Data::NonEmpty_(NonEmpty { name: self.name.clone(), value: self.value + v }))
    }

    fn remove(&self, v: usize) -> (r: Option<Data>) {
        if self.value > v {
            Some(Data::NonEmpty_(NonEmpty { name: self.name.clone(), value: self.value - v }))
        } else if self.value == v {
            Some(Data::Empty_(Empty(self.name.clone())))
        } else {
            None
        }
    }
}

impl DataFunc for Data {
    open spec fn value_of(&self) -> DataV {
        self@
    }

    open spec fn can_add(&self, v: usize) -> bool {
        match self {
            Data::Empty_(x) => x.can_add(v),
            Data::NonEmpty_(x) => x.can_add(v),
        }
    }

    fn add(&self, v: usize) -> (r: Option<Data>) {
        match self {
            Data::Empty_(x) => DataFunc::add(x, v),
            Data::NonEmpty_(x) => DataFunc::add(x, v),
        }
    }

    fn remove(&self, v: usize) -> (r: Option<Data>) {
        match self {
            Data::Empty_(x) => DataFunc::remove(x, v),
            Data::NonEmpty_(x) => DataFunc::remove(x, v),
        }
    }
}

/// Removing what was just added gives back what there was, where something
/// was added.
pub proof fn law_remove_undoes_add(d: DataV, v: nat)
    requires
        data_add(d, v) is Some,
        d is NonEmpty ==> d->NonEmpty_1 > 0,
    ensures
        data_remove(data_add(d, v).unwrap(), v) == Some(d),
{
}

impl From<Empty> for Data {
    fn from(v: Empty) -> (r: Self) {
        Data::Empty_(v)
    }
}

impl vstd::std_specs::convert::FromSpecImpl<Empty> for Data {
    open spec fn obeys_from_spec() -> bool {
        true
    }

    open spec fn from_spec(v: Empty) -> Self {
        Data::Empty_(v)
    }
}

impl From<NonEmpty> for Data {
    fn from(v: NonEmpty) -> (r: Self) {
        Data::NonEmpty_(v)
    }
}

impl vstd::std_specs::convert::FromSpecImpl<NonEmpty> for Data {
    open spec fn obeys_from_spec() -> bool {
        true
    }

    open spec fn from_spec(v: NonEmpty) -> Self {
        Data::NonEmpty_(v)
    }
}

impl TryFrom<Data> for Empty {
    type Error = ();

    fn try_from(v: Data) -> (r: Result<Self, Self::Error>) {
        if let Data::Empty_(x) = v {
            Ok(x)
        } else {
            Err(())
        }
    }
}

impl vstd::std_specs::convert::TryFromSpecImpl<Data> for Empty {
    open spec fn obeys_try_from_spec() -> bool {
        true
    }

    open spec fn try_from_spec(v: Data) -> Result<Self, ()> {
        match v {
            Data::Empty_(x) => Ok(x),
            _ => Err(()),
        }
    }
}

impl TryFrom<Data> for NonEmpty {
    type Error = ();

    fn try_from(v: Data) -> (r: Result<Self, Self::Error>) {
        if let Data::NonEmpty_(x) = v {
            Ok(x)
        } else {
            Err(())
        }
    }
}

impl vstd::std_specs::convert::TryFromSpecImpl<Data> for NonEmpty {
    open spec fn obeys_try_from_spec() -> bool {
        true
    }

    open spec fn try_from_spec(v: Data) -> Result<Self, ()> {
        match v {
            Data::NonEmpty_(x) => Ok(x),
            _ => Err(()),
        }
    }
}

} // verus!
