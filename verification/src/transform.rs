//! Transformations: lifting a function on one type into a function on any
//! type, and applying it bottom up to every node of a term.

use crate::cast::{cast_mut, cast_ref};
use crate::model::Tree;
use crate::query::GenericQuery;
use crate::term::Term;
use crate::typed::{is_a, tree_of, Typed};
use core::marker::PhantomData;
use vstd::pervasive::unreached;
use vstd::prelude::*;

verus! {

/// A function from a value of any type to a value of the same type.
pub trait TransformForAll: Sized {
    /// Whether the function may be called on a value with this tree.
    spec fn accepts(&self, before: Tree) -> bool;

    /// Whether a value with the tree `after` is a possible result for a
    /// value with the tree `before`.
    spec fn rewrites(&self, before: Tree, after: Tree) -> bool;

    /// Call the transform function on any `T`.
    fn transform<T: Typed>(&mut self, t: T) -> (r: T)
        requires
            old(self).accepts(tree_of(t)),
        ensures
            old(self).rewrites(tree_of(t), tree_of(r)),
            *final(self) == *old(self),
    ;
}

/// A transformation takes some value `U` and returns a new, transformed
/// version of it. It can be called on values of any type `T`, not just on
/// values of type `U`, in which case it is simply the identity function.
#[derive(Debug)]
pub struct Transformation<F, U> {
    pub f: F,
    pub phantom: PhantomData<U>,
}

impl<F, U> Transformation<F, U> where F: FnMut(U) -> U, U: Typed {
    /// Construct a new `Transformation` from the given function.
    ///
    /// What the transformation accepts and does is what `takes` and `turns`
    /// say: the contract repeats it for callers whose function is a
    /// closure.
    pub fn new(f: F) -> (r: Transformation<F, U>)
        ensures
            r.f == f,
            forall|before: Tree| #[trigger] r.accepts(before) <==> r.takes(before),
            forall|before: Tree, after: Tree| #[trigger]
                r.rewrites(before, after) <==> r.turns(before, after),
    {
        Transformation { f, phantom: PhantomData }
    }

    /// The wrapped function takes every `U` with this tree.
    pub open spec fn takes(&self, before: Tree) -> bool {
        forall|u: U| tree_of(u) == before ==> #[trigger] call_requires(self.f, (u,))
    }

    /// A `U` goes through the wrapped function, a value of another type
    /// stays as it is.
    pub open spec fn turns(&self, before: Tree, after: Tree) -> bool {
        if is_a::<U>(before) {
            self.maps(before, after)
        } else {
            after == before
        }
    }

    /// Whether the wrapped function may turn a `U` with the tree `before`
    /// into one with the tree `after`.
    pub open spec fn maps(&self, before: Tree, after: Tree) -> bool {
        exists|u: U, v: U|
            tree_of(u) == before && tree_of(v) == after && #[trigger] call_ensures(self.f, (u,), v)
    }
}

impl<F, U> Transformation<F, U> where F: FnMut(U) -> U, U: Typed {
    /// What the transformation does once the cast has been made: where the
    /// value has turned out to be a `U`, and `found` points to the place
    /// that holds it, the wrapped function is called on it and its result
    /// put in its place; where it has not, nothing is done.
    pub fn apply(&mut self, found: Option<&mut Option<U>>)
        requires
            found matches Some(place) ==> (*place matches Some(u) ==> call_requires(
                old(self).f,
                (u,),
            )),
        ensures
            found matches Some(place) ==> match *place {
                Some(u) => *final(place) matches Some(v) && call_ensures(old(self).f, (u,), v),
                None => *final(place) is None,
            },
            *final(self) == *old(self),
    {
        match found {
            Some(place) => {
                match place.take() {
                    Some(u) => {
                        let v = (self.f)(u);
                        *place = Some(v);
                    },
                    None => {},
                }
            },
            None => {},
        }
    }
}

impl<F, U> TransformForAll for Transformation<F, U> where F: FnMut(U) -> U, U: Typed {
    open spec fn accepts(&self, before: Tree) -> bool {
        self.takes(before)
    }

    open spec fn rewrites(&self, before: Tree, after: Tree) -> bool {
        self.turns(before, after)
    }

    fn transform<T: Typed>(&mut self, t: T) -> (r: T) {
        if cast_ref::<T, U>(&t).is_none() {
            return t;
        }
        let mut slot: Option<T> = Some(t);
        let found = cast_mut::<Option<T>, Option<U>>(&mut slot);
        assert(found is Some ==> {
            &&& tree_of(*found->Some_0).kids.len() == 1
            &&& tree_of(*found->Some_0).kids[0] == tree_of((*found->Some_0)->Some_0)
        });
        self.apply(found);
        match slot {
            Some(r) => {
                assert(tree_of(slot).kids[0] == tree_of(r));
                r
            },
            None => unreached(),
        }
    }
}

/// The guard that lets a traversal into every subtree.
#[derive(Debug)]
pub struct Anywhere;

impl GenericQuery<bool> for Anywhere {
    open spec fn accepts(&self, tree: Tree) -> bool {
        true
    }

    open spec fn answers(&self, tree: Tree, r: bool) -> bool {
        r
    }

    fn query<T: Typed>(&mut self, t: &T) -> (r: bool) {
        true
    }
}

/// Recursively perform a transformation in a bottom up manner across the
/// parts of a data structure that a guard lets it into: where the guard
/// answers `false` for a value, the value and everything beneath it stay as
/// they are.
#[derive(Debug)]
pub struct EverywhereBut<F, P> {
    pub p: P,
    pub f: F,
}

impl<F, P> EverywhereBut<F, P> where F: TransformForAll, P: GenericQuery<bool> {
    /// Construct a new guarded transformation traversal.
    pub fn new(p: P, f: F) -> (r: EverywhereBut<F, P>)
        ensures
            r.p == p,
            r.f == f,
    {
        EverywhereBut { p, f }
    }

    /// Whether `mid` may arise from `before` when the traversal rewrites
    /// each immediate child and leaves the rest as it is.
    pub open spec fn layer(&self, before: Tree, mid: Tree) -> bool
        decreases before, 0int,
    {
        &&& before.same_frame(mid)
        &&& forall|i: int|
            0 <= i < before.kids.len() ==> self.rewrites(#[trigger] before.kids[i], mid.kids[i])
    }

    /// Whether the traversal may turn `before` into `after`: either the
    /// guard answers `false` and nothing changes, or it answers `true`, the
    /// children are rewritten first, and the outcome goes through the
    /// wrapped transformation.
    pub open spec fn rewrites(&self, before: Tree, after: Tree) -> bool
        decreases before, 1int,
    {
        ||| self.p.answers(before, false) && after == before
        ||| self.p.answers(before, true) && exists|mid: Tree|
            self.layer(before, mid) && #[trigger] self.f.rewrites(mid, after)
    }

    /// Whether every call that the traversal of `before` may make is one
    /// that the guard and the wrapped transformation accept.
    pub open spec fn accepts(&self, before: Tree) -> bool
        decreases before,
    {
        &&& self.p.accepts(before)
        &&& self.p.answers(before, true) ==> {
            &&& forall|i: int|
                0 <= i < before.kids.len() ==> self.accepts(#[trigger] before.kids[i])
            &&& forall|mid: Tree| self.layer(before, mid) ==> #[trigger] self.f.accepts(mid)
        }
    }

    /// What `rewrites` and `accepts` say of a term, spelled out for callers
    /// whose functions are closures.
    pub proof fn lemma_unfold(&self, before: Tree, after: Tree)
        ensures
            self.rewrites(before, after) <==> {
                ||| self.p.answers(before, false) && after == before
                ||| self.p.answers(before, true) && exists|mid: Tree|
                    self.layer(before, mid) && #[trigger] self.f.rewrites(mid, after)
            },
            forall|mid: Tree|
                self.layer(before, mid) <==> {
                    &&& before.same_frame(mid)
                    &&& forall|i: int|
                        0 <= i < before.kids.len() ==> self.rewrites(
                            #[trigger] before.kids[i],
                            mid.kids[i],
                        )
                },
            self.accepts(before) <==> {
                &&& self.p.accepts(before)
                &&& self.p.answers(before, true) ==> {
                    &&& forall|i: int|
                        0 <= i < before.kids.len() ==> self.accepts(#[trigger] before.kids[i])
                    &&& forall|mid: Tree| self.layer(before, mid) ==> #[trigger] self.f.accepts(mid)
                }
            },
    {
    }

    /// Transform `t` and everything beneath it that the guard lets the
    /// traversal into, children before parents.
    pub fn transform<T: Term>(&mut self, t: T) -> (r: T)
        requires
            old(self).accepts(tree_of(t)),
        ensures
            old(self).rewrites(tree_of(t), tree_of(r)),
            *final(self) == *old(self),
    {
        if self.p.query(&t) {
            let mid = t.map_one_transform(self);
            let r = self.f.transform(mid);
            r
        } else {
            t
        }
    }
}

/// Recursively perform a transformation in a bottom up manner across a
/// complete data structure.
#[derive(Debug)]
pub struct Everywhere<F> {
    pub walk: EverywhereBut<F, Anywhere>,
}

impl<F> Everywhere<F> where F: TransformForAll {
    /// Construct a new transformation traversal.
    pub fn new(f: F) -> (r: Everywhere<F>)
        ensures
            r.walk.f == f,
    {
        Everywhere { walk: EverywhereBut { p: Anywhere, f } }
    }

    /// Whether the traversal may turn `before` into `after`.
    pub open spec fn rewrites(&self, before: Tree, after: Tree) -> bool {
        self.walk.rewrites(before, after)
    }

    /// Whether every call that the traversal of `before` may make is one
    /// that the wrapped transformation accepts.
    pub open spec fn accepts(&self, before: Tree) -> bool {
        self.walk.accepts(before)
    }

    /// Transform `t` and everything beneath it, children before parents.
    pub fn transform<T: Term>(&mut self, t: T) -> (r: T)
        requires
            old(self).accepts(tree_of(t)),
        ensures
            old(self).rewrites(tree_of(t), tree_of(r)),
            *final(self) == *old(self),
    {
        self.walk.transform(t)
    }
}

} // verus!
