//! `adt!( Tree<V: Copy> = Leaf<V> | Node<V> with TreeFunc<V> { fn
//! values(&self) -> Vec<V>; } )`, with `Node<V>` a `GenericNode` of boxed
//! trees.

use vstd::prelude::*;

verus! {

/// A tree that holds one value.
#[derive(Debug)]
pub struct Leaf<V>(pub V);

/// A tree with a left part and an optional right part.
#[derive(Debug)]
pub struct GenericNode<T> {
    pub left: T,
    pub right: Option<T>,
}

pub type Node<V> = GenericNode<Box<Tree<V>>>;

#[derive(Debug)]
pub enum Tree<V: Copy> {
    Leaf_(Leaf<V>),
    Node_(GenericNode<Box<Tree<V>>>),
}

/// The values of a tree from left to right.
pub open spec fn tree_values<V: Copy>(t: Tree<V>) -> Seq<V>
    decreases t,
{
    match t {
        Tree::Leaf_(l) => seq![l.0],
        Tree::Node_(n) => tree_values(*n.left) + match n.right {
            Some(r) => tree_values(*r),
            None => Seq::empty(),
        },
    }
}

/// A tree holds at least one value.
pub proof fn law_tree_values_nonempty<V: Copy>(t: Tree<V>)
    ensures
        tree_values(t).len() >= 1,
    decreases t,
{
    match t {
        Tree::Leaf_(_) => {},
        Tree::Node_(n) => law_tree_values_nonempty(*n.left),
    }
}

impl<V: Copy> Tree<V> {
    /// The values of the tree from left to right.
    pub fn values(&self) -> (r: Vec<V>)
        ensures
            r@ == tree_values(*self),
        decreases self,
    {
        match self {
            Tree::Leaf_(l) => l.values(),
            Tree::Node_(n) => n.values(),
        }
    }
}

impl<V: Copy> Leaf<V> {
    pub fn values(&self) -> (r: Vec<V>)
        ensures
            r@ == seq![self.0],
    {
        let mut r = Vec::new();
        r.push(self.0);
        assert(r@ =~= seq![self.0]);
        r
    }
}

impl<V: Copy> GenericNode<Box<Tree<V>>> {
    pub fn values(&self) -> (r: Vec<V>)
        ensures
            r@ == tree_values(*self.left) + match self.right {
                Some(x) => tree_values(*x),
                None => Seq::empty(),
            },
        decreases self,
    {
        let mut vl = self.left.values();
        let mut vr = match &self.right {
            Some(x) => x.values(),
            None => Vec::new(),
        };
        vl.append(&mut vr);
        vl
    }
}

impl<V: Copy> From<Leaf<V>> for Tree<V> {
    fn from(v: Leaf<V>) -> (r: Self) {
        Tree::Leaf_(v)
    }
}

impl<V: Copy> vstd::std_specs::convert::FromSpecImpl<Leaf<V>> for Tree<V> {
    open spec fn obeys_from_spec() -> bool {
        true
    }

    open spec fn from_spec(v: Leaf<V>) -> Self {
        Tree::Leaf_(v)
    }
}

impl<V: Copy> From<GenericNode<Box<Tree<V>>>> for Tree<V> {
    fn from(v: GenericNode<Box<Tree<V>>>) -> (r: Self) {
        Tree::Node_(v)
    }
}

impl<V: Copy> vstd::std_specs::convert::FromSpecImpl<GenericNode<Box<Tree<V>>>> for Tree<V> {
    open spec fn obeys_from_spec() -> bool {
        true
    }

    open spec fn from_spec(v: GenericNode<Box<Tree<V>>>) -> Self {
        Tree::Node_(v)
    }
}

} // verus!
