//! Types whose values have a model, and the built-in types among them.

use crate::model::{mark, Name, Sort, Tree};
use std::collections::VecDeque;
use vstd::prelude::*;

verus! {

/// A type whose values can be seen as trees.
///
/// Which type a value has is told by the mark of its tree, which `tree_of`
/// sets and no implementation can choose. Two marks can be shown equal,
/// never different: that two types are not one is shown by the sorts that
/// they state here. So it pays to state a sort that no other type of the
/// program states; the sorts of the built-in types are built from names
/// that `Name` keeps for them, and `Name::User` with a number is free for
/// the others. Nothing goes wrong where two types state one sort: a
/// contract then leaves open what a lifted function of the one type does to
/// a value of the other.
///
/// An implementation that states nothing keeps the defaults: the sort
/// without a name, and for every value the tree of a leaf without content.
pub trait Typed: Sized + 'static {
    /// The sort of the type.
    open spec fn key() -> Sort {
        Sort::atom(Name::Unknown)
    }

    /// What a value holds besides its immediate children.
    open spec fn label(&self) -> Seq<int> {
        Seq::empty()
    }

    /// The trees of the immediate children, from left to right.
    open spec fn kids(&self) -> Seq<Tree> {
        Seq::empty()
    }
}

/// The tree that models `t`.
pub open spec fn tree_of<T: Typed>(t: T) -> Tree {
    Tree { mark: mark::<T>(), sort: T::key(), label: t.label(), kids: t.kids() }
}

impl Typed for () {
    open spec fn key() -> Sort {
        Sort::atom(Name::Unit)
    }
}

impl Typed for bool {
    open spec fn key() -> Sort {
        Sort::atom(Name::Bool)
    }

    open spec fn label(&self) -> Seq<int> {
        seq![if *self { 1int } else { 0int }]
    }
}

impl Typed for char {
    open spec fn key() -> Sort {
        Sort::atom(Name::Char)
    }

    open spec fn label(&self) -> Seq<int> {
        seq![*self as int]
    }
}

impl Typed for &'static str {
    open spec fn key() -> Sort {
        Sort::atom(Name::Text)
    }

    open spec fn label(&self) -> Seq<int> {
        Seq::new(self@.len(), |i: int| self@[i] as int)
    }
}

impl Typed for usize {
    open spec fn key() -> Sort {
        Sort::atom(Name::Usize)
    }

    open spec fn label(&self) -> Seq<int> {
        seq![*self as int]
    }
}

impl Typed for u8 {
    open spec fn key() -> Sort {
        Sort::atom(Name::U8)
    }

    open spec fn label(&self) -> Seq<int> {
        seq![*self as int]
    }
}

impl Typed for u16 {
    open spec fn key() -> Sort {
        Sort::atom(Name::U16)
    }

    open spec fn label(&self) -> Seq<int> {
        seq![*self as int]
    }
}

impl Typed for u32 {
    open spec fn key() -> Sort {
        Sort::atom(Name::U32)
    }

    open spec fn label(&self) -> Seq<int> {
        seq![*self as int]
    }
}

impl Typed for u64 {
    open spec fn key() -> Sort {
        Sort::atom(Name::U64)
    }

    open spec fn label(&self) -> Seq<int> {
        seq![*self as int]
    }
}

impl Typed for isize {
    open spec fn key() -> Sort {
        Sort::atom(Name::Isize)
    }

    open spec fn label(&self) -> Seq<int> {
        seq![*self as int]
    }
}

impl Typed for i8 {
    open spec fn key() -> Sort {
        Sort::atom(Name::I8)
    }

    open spec fn label(&self) -> Seq<int> {
        seq![*self as int]
    }
}

impl Typed for i16 {
    open spec fn key() -> Sort {
        Sort::atom(Name::I16)
    }

    open spec fn label(&self) -> Seq<int> {
        seq![*self as int]
    }
}

impl Typed for i32 {
    open spec fn key() -> Sort {
        Sort::atom(Name::I32)
    }

    open spec fn label(&self) -> Seq<int> {
        seq![*self as int]
    }
}

impl Typed for i64 {
    open spec fn key() -> Sort {
        Sort::atom(Name::I64)
    }

    open spec fn label(&self) -> Seq<int> {
        seq![*self as int]
    }
}

impl<T: Typed> Typed for Option<T> {
    open spec fn key() -> Sort {
        Sort::of(Name::Optional, T::key())
    }

    open spec fn kids(&self) -> Seq<Tree> {
        match *self {
            Some(t) => seq![tree_of(t)],
            None => Seq::empty(),
        }
    }
}

impl<T: Typed> Typed for Box<T> {
    open spec fn key() -> Sort {
        Sort::of(Name::Boxed, T::key())
    }

    open spec fn kids(&self) -> Seq<Tree> {
        seq![tree_of(**self)]
    }
}

impl<T: Typed> Typed for Vec<T> {
    open spec fn key() -> Sort {
        Sort::of(Name::Vector, T::key())
    }

    open spec fn kids(&self) -> Seq<Tree> {
        Seq::new(self@.len(), |i: int| tree_of(self@[i]))
    }
}

impl<T: Typed> Typed for VecDeque<T> {
    open spec fn key() -> Sort {
        Sort::of(Name::Deque, T::key())
    }

    open spec fn kids(&self) -> Seq<Tree> {
        Seq::new(self@.len(), |i: int| tree_of(self@[i]))
    }
}

/// Whether the root of `tree` has the mark and the sort of the type `U`: a
/// value with such a tree is a `U`.
pub open spec fn is_a<U: Typed>(tree: Tree) -> bool {
    tree.mark == mark::<U>() && tree.sort == U::key()
}

/// Whether the tree of a value of this type says all of the value: two
/// values with one tree are one value.
pub open spec fn exact<T: Typed>() -> bool {
    forall|a: T, b: T| #[trigger] tree_of(a) == #[trigger] tree_of(b) ==> a == b
}

/// The types without children are exact.
pub proof fn lemma_scalars_exact()
    ensures
        exact::<()>(),
        exact::<bool>(),
        exact::<char>(),
        exact::<usize>(),
        exact::<u8>(),
        exact::<u16>(),
        exact::<u32>(),
        exact::<u64>(),
        exact::<isize>(),
        exact::<i8>(),
        exact::<i16>(),
        exact::<i32>(),
        exact::<i64>(),
{
    assert forall|a: (), b: ()| tree_of(a) == tree_of(b) implies a == b by {}
    assert forall|a: bool, b: bool| tree_of(a) == tree_of(b) implies a == b by {
        assert(a.label()[0] == b.label()[0]);
    }
    assert forall|a: char, b: char| tree_of(a) == tree_of(b) implies a == b by {
        assert(a.label()[0] == b.label()[0]);
    }
    assert forall|a: usize, b: usize| tree_of(a) == tree_of(b) implies a == b by {
        assert(a.label()[0] == b.label()[0]);
    }
    assert forall|a: u8, b: u8| tree_of(a) == tree_of(b) implies a == b by {
        assert(a.label()[0] == b.label()[0]);
    }
    assert forall|a: u16, b: u16| tree_of(a) == tree_of(b) implies a == b by {
        assert(a.label()[0] == b.label()[0]);
    }
    assert forall|a: u32, b: u32| tree_of(a) == tree_of(b) implies a == b by {
        assert(a.label()[0] == b.label()[0]);
    }
    assert forall|a: u64, b: u64| tree_of(a) == tree_of(b) implies a == b by {
        assert(a.label()[0] == b.label()[0]);
    }
    assert forall|a: isize, b: isize| tree_of(a) == tree_of(b) implies a == b by {
        assert(a.label()[0] == b.label()[0]);
    }
    assert forall|a: i8, b: i8| tree_of(a) == tree_of(b) implies a == b by {
        assert(a.label()[0] == b.label()[0]);
    }
    assert forall|a: i16, b: i16| tree_of(a) == tree_of(b) implies a == b by {
        assert(a.label()[0] == b.label()[0]);
    }
    assert forall|a: i32, b: i32| tree_of(a) == tree_of(b) implies a == b by {
        assert(a.label()[0] == b.label()[0]);
    }
    assert forall|a: i64, b: i64| tree_of(a) == tree_of(b) implies a == b by {
        assert(a.label()[0] == b.label()[0]);
    }
}

/// An optional value of an exact type is exact.
pub proof fn lemma_option_exact<T: Typed>()
    requires
        exact::<T>(),
    ensures
        exact::<Option<T>>(),
{
    assert forall|a: Option<T>, b: Option<T>| tree_of(a) == tree_of(b) implies a == b by {
        assert(a.kids().len() == b.kids().len());
        if a is Some {
            assert(a.kids()[0] == b.kids()[0]);
        }
    }
}

/// A box of an exact type is exact.
pub proof fn lemma_box_exact<T: Typed>()
    requires
        exact::<T>(),
    ensures
        exact::<Box<T>>(),
{
    assert forall|a: Box<T>, b: Box<T>| tree_of(a) == tree_of(b) implies a == b by {
        assert(a.kids()[0] == b.kids()[0]);
    }
}

/// Two strings with one tree hold the same characters.
pub proof fn lemma_text_tree(a: &'static str, b: &'static str)
    requires
        tree_of(a) == tree_of(b),
    ensures
        a@ == b@,
{
    assert(a.label().len() == b.label().len());
    assert forall|i: int| 0 <= i < a@.len() implies a@[i] == b@[i] by {
        assert(a.label()[i] == b.label()[i]);
    }
    assert(a@ =~= b@);
}

/// Two lists of an exact type with one tree hold the same items.
pub proof fn lemma_vec_tree<T: Typed>(a: Vec<T>, b: Vec<T>)
    requires
        exact::<T>(),
        tree_of(a) == tree_of(b),
    ensures
        a@ == b@,
{
    assert(a.kids().len() == b.kids().len());
    assert forall|i: int| 0 <= i < a@.len() implies a@[i] == b@[i] by {
        assert(a.kids()[i] == b.kids()[i]);
    }
    assert(a@ =~= b@);
}

/// Two queues of an exact type with one tree hold the same items.
pub proof fn lemma_deque_tree<T: Typed>(a: VecDeque<T>, b: VecDeque<T>)
    requires
        exact::<T>(),
        tree_of(a) == tree_of(b),
    ensures
        a@ == b@,
{
    assert(a.kids().len() == b.kids().len());
    assert forall|i: int| 0 <= i < a@.len() implies a@[i] == b@[i] by {
        assert(a.kids()[i] == b.kids()[i]);
    }
    assert(a@ =~= b@);
}

} // verus!
