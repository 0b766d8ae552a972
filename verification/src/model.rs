//! The mathematical model of a term: a finite tree whose nodes carry the sort
//! of the value they stand for, what the value holds besides its children,
//! and the trees of its immediate children in visiting order.

use core::marker::PhantomData;
use vstd::pervasive::arbitrary;
use vstd::prelude::*;

verus! {

/// The name of a type constructor.
pub enum Name {
    /// The name of a type that states none.
    Unknown,
    Unit,
    Bool,
    Char,
    Text,
    U8,
    U16,
    U32,
    U64,
    Usize,
    I8,
    I16,
    I32,
    I64,
    Isize,
    Optional,
    Vector,
    Boxed,
    Deque,
    Tuple,
    /// A type defined outside this library, under a number of its own.
    User(int),
}

/// The sort of a term: the name of its type constructor applied to the sorts
/// of the type's arguments.
pub struct Sort {
    pub name: Name,
    pub args: Seq<Sort>,
}

impl Sort {
    /// The sort of a type without arguments.
    pub open spec fn atom(name: Name) -> Sort {
        Sort { name, args: Seq::empty() }
    }

    /// The sort of a type constructor applied to one argument.
    pub open spec fn of(name: Name, arg: Sort) -> Sort {
        Sort { name, args: seq![arg] }
    }
}

/// A value that exists once for each type.
pub struct Mark<T> {
    pub at: int,
    pub of: PhantomData<T>,
}

/// The mark of a type: a number that belongs to the type. Nothing is known
/// of it but that a type has one mark, so two marks can be shown equal only
/// where the two types are one.
pub open spec fn mark<T>() -> int {
    arbitrary::<Mark<T>>().at
}

/// The model of a value: the mark and the sort of its type, its own
/// content, and its immediate children from left to right.
pub struct Tree {
    pub mark: int,
    pub sort: Sort,
    pub label: Seq<int>,
    pub kids: Seq<Tree>,
}

impl Tree {
    /// Whether `other` stands for a value of the same type with the same
    /// content and the same number of immediate children.
    pub open spec fn same_frame(self, other: Tree) -> bool {
        &&& other.mark == self.mark
        &&& other.sort == self.sort
        &&& other.label == self.label
        &&& other.kids.len() == self.kids.len()
    }

    /// Whether the tree has a node of the given sort, itself included.
    pub open spec fn holds(self, sort: Sort) -> bool
        decreases self,
    {
        ||| self.sort == sort
        ||| exists|i: int| 0 <= i < self.kids.len() && (#[trigger] self.kids[i]).holds(sort)
    }

    /// What `ask` gives for the nodes of the tree, put one after the other
    /// in visiting order: for the node itself first, then for each child
    /// and everything beneath it, from left to right.
    pub open spec fn listing<X>(self, ask: spec_fn(Tree) -> Seq<X>) -> Seq<X>
        decreases self, self.kids.len() + 1,
    {
        ask(self) + self.listing_upto(ask, self.kids.len())
    }

    /// What `ask` gives for the nodes under the first `n` children, in
    /// visiting order.
    pub open spec fn listing_upto<X>(self, ask: spec_fn(Tree) -> Seq<X>, n: nat) -> Seq<X>
        decreases self, n,
    {
        if n == 0 || n > self.kids.len() {
            Seq::empty()
        } else {
            self.listing_upto(ask, (n - 1) as nat) + self.kids[n - 1].listing(ask)
        }
    }

    /// The number of nodes of the tree.
    pub open spec fn size(self) -> nat
        decreases self, self.kids.len() + 1,
    {
        1 + self.size_upto(self.kids.len())
    }

    /// The number of nodes under the first `n` children.
    pub open spec fn size_upto(self, n: nat) -> nat
        decreases self, n,
    {
        if n == 0 || n > self.kids.len() {
            0
        } else {
            self.size_upto((n - 1) as nat) + self.kids[n - 1].size()
        }
    }
}

} // verus!
