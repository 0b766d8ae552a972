//! The structural-reflection protocol: what a type offers so that the
//! traversals can reach its immediate children.

use crate::mutation::{MutateEverything, MutateForAll};
use crate::query::{Everything, GenericQuery};
use crate::transform::{EverywhereBut, TransformForAll};
use crate::typed::{tree_of, Typed};
use vstd::prelude::*;

verus! {

/// A `Term` is a value that can be mapped or queried.
///
/// The immediate children of a value are the values whose trees `kids`
/// lists, in that order. An implementation hands each of them to the
/// traversal that it is given, from left to right, and nothing else: a type
/// without children returns at once, and an enum goes through the fields of
/// the variant that the value has.
pub trait Term: Typed {
    /// Perform one-layer traversal and transformation of this value's direct
    /// children: each of them goes through `f`, from left to right, and the
    /// value is put together again from the outcomes. Its sort, its label
    /// and the number of its children stay as they are.
    fn map_one_transform<F, P>(self, f: &mut EverywhereBut<F, P>) -> (r: Self) where
        F: TransformForAll,
        P: GenericQuery<bool>,

        requires
            forall|i: int|
                0 <= i < tree_of(self).kids.len() ==> old(f).accepts(
                    #[trigger] tree_of(self).kids[i],
                ),
        ensures
            old(f).layer(tree_of(self), tree_of(r)),
            *final(f) == *old(f),
    ;

    /// Perform one-layer traversal and immutable querying of this value's
    /// direct children: each of them is queried by `q`, from left to right,
    /// and its result joined to the accumulator, which starts as `acc` and
    /// is returned at the end.
    fn map_one_query<Q, R, F>(&self, q: &mut Everything<Q, R, F>, acc: R) -> (out: R) where
        Q: GenericQuery<R>,
        F: FnMut(R, R) -> R,

        requires
            old(q).feeds(tree_of(*self), tree_of(*self).kids.len(), acc),
        ensures
            old(q).folds(tree_of(*self), tree_of(*self).kids.len(), acc, out),
            *final(q) == *old(q),
    ;

    /// Perform one-layer traversal and mutable querying of this value's
    /// direct children: each of them is mutated by `m`, from left to right,
    /// and its result joined to the accumulator, which starts as `acc` and
    /// is returned at the end. The sort of the value, its label and the
    /// number of its children stay as they are.
    fn map_one_mutation<M, R, F>(&mut self, m: &mut MutateEverything<M, R, F>, acc: R) -> (out:
        R) where M: MutateForAll<R>, F: FnMut(R, R) -> R
        requires
            old(m).joins(tree_of(*old(self)), acc),
            forall|i: int|
                0 <= i < tree_of(*old(self)).kids.len() ==> old(m).accepts(
                    #[trigger] tree_of(*old(self)).kids[i],
                ),
        ensures
            tree_of(*old(self)).same_frame(tree_of(*final(self))),
            old(m).threads(
                tree_of(*old(self)),
                tree_of(*final(self)),
                tree_of(*final(self)).kids.len(),
                acc,
                out,
            ),
            *final(m) == *old(m),
    ;
}

} // verus!
