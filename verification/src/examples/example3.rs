//! `adt!( Stock<ID, QTY, INFO> = EmptyStock<ID> | NonEmptyStock<ID, QTY>
//! derive Clone, Debug with StockFunc<ID, QTY, INFO> where ... { ... } )`:
//! the enum keeps the parameters `ID` and `QTY` that its element types
//! name, and restocking, with quantities counted in `usize`.

use vstd::prelude::*;

verus! {

/// A stock that holds nothing yet, under an id.
#[derive(Clone, Debug)]
pub struct EmptyStock<ID>(pub ID);

/// A stock that holds a quantity under an id.
#[derive(Clone, Debug)]
pub struct NonEmptyStock<ID, QTY> {
    pub id: ID,
    pub qty: QTY,
}

#[derive(Clone, Debug)]
pub enum Stock<ID, QTY> {
    EmptyStock_(EmptyStock<ID>),
    NonEmptyStock_(NonEmptyStock<ID, QTY>),
}

/// What restocking a stock that holds `cur` (`None` for an empty one) with
/// `q` leaves it holding: `q` more, where `q` is more than nothing;
/// otherwise the restock is refused.
pub open spec fn restocked(cur: Option<nat>, q: nat) -> Option<nat> {
    if q > 0 {
        match cur {
            Some(c) => Some(c + q),
            None => Some(q),
        }
    } else {
        None
    }
}

impl<ID: Clone> EmptyStock<ID> {
    /// Restocking with `q`: where `q` is more than nothing, a stock holding
    /// `q` under a clone of the id.
    pub fn restock_with(&self, q: usize) -> (r: Option<Stock<ID, usize>>)
        ensures
            r is Some <==> restocked(None, q as nat) is Some,
            r matches Some(st) ==> st matches Stock::NonEmptyStock_(s) && Some(s.qty as nat) == restocked(None, q as nat)
                && cloned(self.0, s.id),
    {
        if q > 0 {
            Some(Stock::NonEmptyStock_(NonEmptyStock { id: self.0.clone(), qty: q }))
        } else {
            None
        }
    }
}

impl<ID: Clone> NonEmptyStock<ID, usize> {
    /// Restocking with `q`: where `q` is more than nothing, a stock holding
    /// `q` more under a clone of the id.
    pub fn restock_with(&self, q: usize) -> (r: Option<Stock<ID, usize>>)
        requires
            q > 0 ==> self.qty + q <= usize::MAX,
        ensures
            r is Some <==> restocked(Some(self.qty as nat), q as nat) is Some,
            r matches Some(st) ==> st matches Stock::NonEmptyStock_(s) && Some(s.qty as nat) == restocked(
                Some(self.qty as nat),
                q as nat,
            ) && cloned(self.id, s.id),
    {
        if q > 0 {
            Some(Stock::NonEmptyStock_(NonEmptyStock { id: self.id.clone(), qty: self.qty + q }))
        } else {
            None
        }
    }
}

/// Restocking twice with quantities more than nothing holds their sum, as
/// one restock with the sum does.
pub proof fn law_restock_adds_up(cur: Option<nat>, p: nat, q: nat)
    requires
        p > 0,
        q > 0,
    ensures
        restocked(restocked(cur, p), q) == restocked(cur, p + q),
{
}

impl<ID, QTY> From<EmptyStock<ID>> for Stock<ID, QTY> {
    fn from(v: EmptyStock<ID>) -> (r: Self) {
        Stock::EmptyStock_(v)
    }
}

impl<ID, QTY> vstd::std_specs::convert::FromSpecImpl<EmptyStock<ID>> for Stock<ID, QTY> {
    open spec fn obeys_from_spec() -> bool {
        true
    }

    open spec fn from_spec(v: EmptyStock<ID>) -> Self {
        Stock::EmptyStock_(v)
    }
}

impl<ID, QTY> From<NonEmptyStock<ID, QTY>> for Stock<ID, QTY> {
    fn from(v: NonEmptyStock<ID, QTY>) -> (r: Self) {
        Stock::NonEmptyStock_(v)
    }
}

impl<ID, QTY> vstd::std_specs::convert::FromSpecImpl<NonEmptyStock<ID, QTY>> for Stock<ID, QTY> {
    open spec fn obeys_from_spec() -> bool {
        true
    }

    open spec fn from_spec(v: NonEmptyStock<ID, QTY>) -> Self {
        Stock::NonEmptyStock_(v)
    }
}

} // verus!
