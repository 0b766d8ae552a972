//! The type-identity cast: a value of one type seen as a value of another,
//! which succeeds exactly when the two are one type.
//!
//! Whether two types are one type is decided where the program runs. To a
//! contract it is whether the two have one mark: `mark` stands for what
//! `TypeId::of` gives, a value that each type has for itself, so two marks
//! can be shown equal only where the two types are one. That two types are
//! not one type is shown by their sorts: a value that passes keeps its tree,
//! and its sort with it.

use crate::model::mark;
use crate::typed::{tree_of, Typed};
use vstd::pervasive::unreached;
use vstd::prelude::*;

verus! {

/// `<dyn Any>::downcast_ref`, which returns the same reference under the
/// type `B` when `A` and `B` are one type, and `None` when they are not.
///
/// Not proved: that a reference comes back exactly where `A` and `B` have
/// one mark, the mark being what tells a type from every other; that the
/// reference which comes back points to a value with the tree of `*a`,
/// which holds because it is the same value under the same type; and that
/// the optional types `Option<A>` and `Option<B>` are then one type too.
#[verifier::external_body]
pub(crate) fn cast_ref<A: Typed, B: Typed>(a: &A) -> (r: Option<&B>)
    ensures
        r is Some <==> mark::<A>() == mark::<B>(),
        r matches Some(b) ==> tree_of(*b) == tree_of(*a),
        r is Some ==> mark::<Option<A>>() == mark::<Option<B>>(),
{
    let any: &dyn core::any::Any = a;
    any.downcast_ref::<B>()
}

/// `<dyn Any>::downcast_mut`, which returns the same mutable reference under
/// the type `B` when `A` and `B` are one type, and `None` when they are not.
///
/// Not proved: that a reference comes back exactly where `A` and `B` have
/// one mark; that the reference which comes back points to a value with the
/// tree of `*a`, now and when the borrow ends, which holds because it
/// points to the same place under the same type; and that `*a` is untouched
/// where `None` comes back.
#[verifier::external_body]
pub(crate) fn cast_mut<A: Typed, B: Typed>(a: &mut A) -> (r: Option<&mut B>)
    ensures
        r is Some <==> mark::<A>() == mark::<B>(),
        match r {
            Some(b) => {
                &&& tree_of(*b) == tree_of(*old(a))
                &&& tree_of(*final(b)) == tree_of(*final(a))
            },
            None => *final(a) == *old(a),
        },
{
    let any: &mut dyn core::any::Any = a;
    any.downcast_mut::<B>()
}

/// Dynamically cast a value to a `T`.
pub trait Cast<T: Typed>: Typed {
    /// The value itself as a `T` when `Self` and `T` are one type, and
    /// otherwise the value handed back untouched as the error. A value that
    /// comes back as a `T` has the tree that it had, and its sort with it:
    /// two types of different sorts always give the error.
    fn cast(self) -> (r: Result<T, Self>)
        ensures
            r is Ok <==> mark::<Self>() == mark::<T>(),
            match r {
                Ok(t) => tree_of(t) == tree_of(self),
                Err(back) => back == self,
            },
    ;
}

impl<T: Typed, U: Typed> Cast<T> for U {
    fn cast(self) -> (r: Result<T, Self>) {
        if cast_ref::<U, T>(&self).is_none() {
            return Err(self);
        }
        let mut slot: Option<U> = Some(self);
        assert(tree_of(slot).kids[0] == tree_of(self));
        match cast_mut::<Option<U>, Option<T>>(&mut slot) {
            Some(found) => {
                match found.take() {
                    Some(t) => Ok(t),
                    None => unreached(),
                }
            },
            None => unreached(),
        }
    }
}

} // verus!
