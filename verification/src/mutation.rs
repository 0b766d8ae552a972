//! Mutations: lifting a function on mutable references to one type into a
//! function on mutable references to any type, and folding it over every
//! node of a term while the term is changed in place.

use crate::cast::cast_mut;
use crate::model::Tree;
use crate::query::{ByDefault, Fallback};
use crate::term::Term;
use crate::typed::{is_a, tree_of, Typed};
use core::marker::PhantomData;
use vstd::prelude::*;

verus! {

/// A function from a mutable reference to a value of any type to an `R`.
pub trait MutateForAll<R>: Sized {
    /// Whether the function may be called on a value with this tree.
    spec fn accepts(&self, before: Tree) -> bool;

    /// Whether the call may turn a value with the tree `before` into one
    /// with the tree `after` and return `r`.
    spec fn alters(&self, before: Tree, after: Tree, r: R) -> bool;

    /// Call the mutation function on any `T`.
    fn mutate<T: Typed>(&mut self, t: &mut T) -> (r: R)
        requires
            old(self).accepts(tree_of(*old(t))),
        ensures
            old(self).alters(tree_of(*old(t)), tree_of(*final(t)), r),
            *final(self) == *old(self),
    ;
}

/// A mutation creates some value `R` from mutable references to a `U`. It
/// can be called on values of any type `T`, not just on values of type `U`,
/// so it holds a fallback for the values which are not a `U`.
#[derive(Debug)]
pub struct Mutation<M, U, D, R> {
    pub make_default: D,
    pub mutation: M,
    pub phantom: PhantomData<(U, R)>,
}

impl<M, U, R> Mutation<M, U, ByDefault, R> where M: FnMut(&mut U) -> R, U: Typed, R: Default {
    /// Construct a new `Mutation`, returning `R::default()` for the cases
    /// where we mutate a value whose type is not `U`.
    ///
    /// What the mutation accepts and does is what `takes` and `turns` say:
    /// the contract repeats it for callers whose function is a closure.
    pub fn new(mutation: M) -> (r: Mutation<M, U, ByDefault, R>)
        ensures
            r.mutation == mutation,
            forall|before: Tree| #[trigger] r.accepts(before) <==> r.takes(before),
            forall|before: Tree, after: Tree, out: R| #[trigger]
                r.alters(before, after, out) <==> r.turns(before, after, out),
    {
        Mutation { make_default: ByDefault, mutation, phantom: PhantomData }
    }
}

impl<M, U, D, R> Mutation<M, U, D, R> where M: FnMut(&mut U) -> R, U: Typed, D: FnMut() -> R {
    /// Construct a new `Mutation`, returning `make_default()` for the cases
    /// where we mutate a value whose type is not `U`.
    ///
    /// What the mutation accepts and does is what `takes` and `turns` say,
    /// and its fallback is `make_default` with its own `requires` and
    /// `ensures`: the contract repeats it for callers whose functions are
    /// closures.
    pub fn or_else(make_default: D, mutation: M) -> (r: Mutation<M, U, D, R>)
        ensures
            r.make_default == make_default,
            r.mutation == mutation,
            r.make_default.ready() <==> call_requires(make_default, ()),
            forall|out: R| #[trigger]
                r.make_default.makes(out) <==> call_ensures(make_default, (), out),
            forall|before: Tree| #[trigger] r.accepts(before) <==> r.takes(before),
            forall|before: Tree, after: Tree, out: R| #[trigger]
                r.alters(before, after, out) <==> r.turns(before, after, out),
    {
        Mutation { make_default, mutation, phantom: PhantomData }
    }
}

impl<M, U, D, R> Mutation<M, U, D, R> where M: FnMut(&mut U) -> R, U: Typed, D: Fallback<R> {
    /// Call the wrapped function on `*u` and hand back, beside its result,
    /// what it has left in `*u`.
    ///
    /// `edits` is the relation between what this function is given and what
    /// it hands back: a relation between values, which a specification can
    /// name, of a function that works through a mutable reference.
    pub fn run(&mut self, u: &mut U) -> (out: (R, Ghost<U>))
        requires
            forall|x: &mut U|
                mut_ref_current(x) == *old(u) ==> call_requires(old(self).mutation, (x,)),
        ensures
            *final(self) == *old(self),
            out.1@ == *final(u),
            exists|x: &mut U, r: R|
                r == out.0 && mut_ref_current(x) == *old(u) && mut_ref_future(x) == *final(u)
                    && #[trigger] call_ensures(old(self).mutation, (x,), r),
    {
        let r = (self.mutation)(u);
        (r, Ghost(*u))
    }

    /// Whether the wrapped function may turn the `U` `before` into the `U`
    /// `after` and return `r`: whether `run` may be called on `before` and
    /// hand back `r` and `after`.
    pub open spec fn edits(&self, before: U, after: U, r: R) -> bool {
        exists|me: &mut Self, u: &mut U|
            mut_ref_current(me) == *self && mut_ref_current(u) == before && #[trigger] call_ensures(
                Self::run,
                (me, u),
                (r, Ghost(after)),
            )
    }

    /// What `edits` says of a call is what the wrapped function ensures of
    /// it.
    pub proof fn lemma_edits(&self, before: U, after: U, r: R)
        requires
            self.edits(before, after, r),
        ensures
            exists|x: &mut U|
                mut_ref_current(x) == before && mut_ref_future(x) == after && #[trigger] call_ensures(
                    self.mutation,
                    (x,),
                    r,
                ),
    {
    }

    /// Whether the wrapped function may turn a `U` with the tree `before`
    /// into one with the tree `after` and return `r`.
    pub open spec fn maps(&self, before: Tree, after: Tree, r: R) -> bool {
        exists|u: U, v: U|
            tree_of(u) == before && tree_of(v) == after && #[trigger] self.edits(u, v, r)
    }

    /// The wrapped function takes every `U` with this tree, and the fallback
    /// is ready where the value is of another type.
    pub open spec fn takes(&self, before: Tree) -> bool {
        &&& forall|u: &mut U|
            tree_of(mut_ref_current(u)) == before ==> #[trigger] call_requires(
                self.mutation,
                (u,),
            )
        &&& !is_a::<U>(before) ==> self.make_default.ready()
    }

    /// A `U` goes through the wrapped function, which gives the result; a
    /// value of another type stays as it is, and the fallback gives the
    /// result.
    pub open spec fn turns(&self, before: Tree, after: Tree, r: R) -> bool {
        if is_a::<U>(before) {
            self.maps(before, after, r)
        } else {
            after == before && self.make_default.makes(r)
        }
    }

    /// What the mutation does once the cast has been made: where the value
    /// has turned out to be a `U`, and `found` points to it, the wrapped
    /// function is called on it; where it has not, the fallback makes the
    /// result.
    pub fn edit(&mut self, found: Option<&mut U>) -> (r: R)
        requires
            match found {
                Some(u) => forall|x: &mut U|
                    mut_ref_current(x) == *u ==> call_requires(old(self).mutation, (x,)),
                None => old(self).make_default.ready(),
            },
        ensures
            match found {
                Some(u) => old(self).edits(*u, *final(u), r),
                None => old(self).make_default.makes(r),
            },
            *final(self) == *old(self),
    {
        match found {
            Some(u) => {
                let (r, Ghost(left)) = invoke(Self::run, self, u);
                r
            },
            None => self.make_default.make(),
        }
    }
}

/// Call a function of two arguments: what is known of the call is what is
/// known of the function.
fn invoke<A, B, C, G: FnOnce(A, B) -> C>(g: G, a: A, b: B) -> (c: C)
    requires
        call_requires(g, (a, b)),
    ensures
        call_ensures(g, (a, b), c),
{
    g(a, b)
}

impl<M, U, D, R> MutateForAll<R> for Mutation<M, U, D, R> where
    M: FnMut(&mut U) -> R,
    U: Typed,
    D: Fallback<R>,
 {
    open spec fn accepts(&self, before: Tree) -> bool {
        self.takes(before)
    }

    open spec fn alters(&self, before: Tree, after: Tree, r: R) -> bool {
        self.turns(before, after, r)
    }

    fn mutate<T: Typed>(&mut self, t: &mut T) -> (r: R) {
        let found = cast_mut::<T, U>(t);
        self.edit(found)
    }
}

/// Recursively perform a mutation in a top-down, left-to-right manner across
/// a data structure. The `M: MutateForAll<R>` mutates individual values,
/// while the `F: FnMut(R, R) -> R` joins the results of multiple mutations
/// into a single result.
#[derive(Debug)]
pub struct MutateEverything<M, R, F> {
    pub m: M,
    pub fold: F,
    pub phantom: PhantomData<R>,
}

impl<M, R, F> MutateEverything<M, R, F> where M: MutateForAll<R>, F: FnMut(R, R) -> R {
    /// Construct a new `MutateEverything` traversal.
    pub fn new(m: M, fold: F) -> (r: MutateEverything<M, R, F>)
        ensures
            r.m == m,
            r.fold == fold,
    {
        MutateEverything { m, fold, phantom: PhantomData }
    }

    /// Whether `acc` is a possible accumulator once the first `n` children
    /// of `mid` have been traversed, which has turned them into the first
    /// `n` children of `after`, and their results have been joined, one
    /// after the other from the left, to an accumulator that started as
    /// `acc0`.
    pub open spec fn threads(&self, mid: Tree, after: Tree, n: nat, acc0: R, acc: R) -> bool
        decreases after, n,
    {
        if n == 0 {
            acc == acc0
        } else if n > after.kids.len() || n > mid.kids.len() {
            false
        } else {
            exists|prev: R, r: R|
                self.threads(mid, after, (n - 1) as nat, acc0, prev) && self.mutates(
                    mid.kids[n - 1],
                    after.kids[n - 1],
                    r,
                ) && #[trigger] call_ensures(self.fold, (prev, r), acc)
        }
    }

    /// Whether the traversal may turn `before` into `after` and return
    /// `out`: the mutation is applied to the node itself first, and then
    /// the children of what it has left are traversed from left to right
    /// and their results joined to the node's own.
    pub open spec fn mutates(&self, before: Tree, after: Tree, out: R) -> bool
        decreases after, after.kids.len() + 1,
    {
        exists|mid: Tree, seed: R| #[trigger]
            self.m.alters(before, mid, seed) && mid.same_frame(after) && self.threads(
                mid,
                after,
                after.kids.len(),
                seed,
                out,
            )
    }

    /// Whether the joining function accepts every pair that it may be
    /// given while the children of `mid` are traversed and their results
    /// joined to an accumulator that starts as `acc0`.
    pub open spec fn joins(&self, mid: Tree, acc0: R) -> bool {
        forall|after: Tree, k: nat, prev: R, r: R|
            k < mid.kids.len() && k < after.kids.len() && #[trigger] self.threads(
                mid,
                after,
                k,
                acc0,
                prev,
            ) && #[trigger] self.mutates(mid.kids[k as int], after.kids[k as int], r)
                ==> call_requires(self.fold, (prev, r))
    }

    /// Whether the traversal of a term in `inv` makes only calls that the
    /// mutation and the joining function accept, and goes on only to terms
    /// in `inv`.
    pub open spec fn closed(&self, inv: spec_fn(Tree) -> bool) -> bool {
        forall|before: Tree| #[trigger]
            inv(before) ==> {
                &&& self.m.accepts(before)
                &&& forall|mid: Tree, seed: R| #[trigger]
                    self.m.alters(before, mid, seed) ==> {
                        &&& self.joins(mid, seed)
                        &&& forall|i: int|
                            0 <= i < mid.kids.len() ==> inv(#[trigger] mid.kids[i])
                    }
            }
    }

    /// Whether every call that the traversal of `before` may make is one
    /// that the mutation and the joining function accept. The mutation of a
    /// node decides which children the traversal goes on to, so this is not
    /// said along the term as it stands: the term lies in a set of terms
    /// that the traversal never leaves.
    pub open spec fn accepts(&self, before: Tree) -> bool {
        exists|inv: spec_fn(Tree) -> bool| self.closed(inv) && #[trigger] inv(before)
    }

    /// What `accepts` says of a term, it says of the children that the
    /// mutation of the term leaves.
    pub proof fn lemma_accepts_step(&self, before: Tree, mid: Tree, seed: R)
        requires
            self.accepts(before),
            self.m.alters(before, mid, seed),
        ensures
            self.m.accepts(before),
            self.joins(mid, seed),
            forall|i: int| 0 <= i < mid.kids.len() ==> self.accepts(#[trigger] mid.kids[i]),
    {
        let inv = choose|inv: spec_fn(Tree) -> bool| self.closed(inv) && #[trigger] inv(before);
        assert forall|i: int| 0 <= i < mid.kids.len() implies self.accepts(
            #[trigger] mid.kids[i],
        ) by {
        }
    }

    /// What `mutates` and `threads` say of a term, spelled out for callers
    /// whose functions are closures.
    pub proof fn lemma_unfold(&self, before: Tree, after: Tree, n: nat, acc0: R, acc: R)
        ensures
            self.mutates(before, after, acc) <==> exists|mid: Tree, seed: R| #[trigger]
                self.m.alters(before, mid, seed) && mid.same_frame(after) && self.threads(
                    mid,
                    after,
                    after.kids.len(),
                    seed,
                    acc,
                ),
            self.threads(before, after, 0, acc0, acc) <==> acc == acc0,
            0 < n <= after.kids.len() && n <= before.kids.len() ==> (self.threads(
                before,
                after,
                n,
                acc0,
                acc,
            ) <==> exists|prev: R, r: R|
                self.threads(before, after, (n - 1) as nat, acc0, prev) && self.mutates(
                    before.kids[n - 1],
                    after.kids[n - 1],
                    r,
                ) && #[trigger] call_ensures(self.fold, (prev, r), acc)),
    {
    }

    /// Each of the first `n` children has been traversed.
    pub proof fn lemma_threads_kid(
        &self,
        mid: Tree,
        after: Tree,
        n: nat,
        acc0: R,
        acc: R,
        i: int,
    )
        requires
            self.threads(mid, after, n, acc0, acc),
            0 <= i < n,
        ensures
            exists|r: R| self.mutates(mid.kids[i], after.kids[i], r),
        decreases n,
    {
        let (prev, r) = choose|prev: R, r: R|
            self.threads(mid, after, (n - 1) as nat, acc0, prev) && self.mutates(
                mid.kids[n - 1],
                after.kids[n - 1],
                r,
            ) && #[trigger] call_ensures(self.fold, (prev, r), acc);
        if i < n - 1 {
            self.lemma_threads_kid(mid, after, (n - 1) as nat, acc0, prev, i);
        }
    }

    /// The first `n` children decide alone what `threads` says of them.
    pub proof fn lemma_threads_prefix(
        &self,
        mid: Tree,
        after: Tree,
        other: Tree,
        n: nat,
        acc0: R,
        acc: R,
    )
        requires
            self.threads(mid, after, n, acc0, acc),
            n <= other.kids.len(),
            forall|i: int| 0 <= i < n ==> after.kids[i] == other.kids[i],
        ensures
            self.threads(mid, other, n, acc0, acc),
        decreases n,
    {
        if n > 0 {
            let (prev, r) = choose|prev: R, r: R|
                self.threads(mid, after, (n - 1) as nat, acc0, prev) && self.mutates(
                    mid.kids[n - 1],
                    after.kids[n - 1],
                    r,
                ) && #[trigger] call_ensures(self.fold, (prev, r), acc);
            self.lemma_threads_prefix(mid, after, other, (n - 1) as nat, acc0, prev);
        }
    }

    /// Mutate `t` and everything beneath it, and join the results: the
    /// node's own first, then those of its children from left to right.
    pub fn mutate<T: Term>(&mut self, t: &mut T) -> (r: R)
        requires
            old(self).accepts(tree_of(*old(t))),
        ensures
            old(self).mutates(tree_of(*old(t)), tree_of(*final(t)), r),
            *final(self) == *old(self),
    {
        proof {
            let inv = choose|inv: spec_fn(Tree) -> bool|
                old(self).closed(inv) && #[trigger] inv(tree_of(*old(t)));
        }
        let seed = self.m.mutate(t);
        let ghost mid = tree_of(*t);
        proof {
            old(self).lemma_accepts_step(tree_of(*old(t)), mid, seed);
        }
        let r = t.map_one_mutation(self, seed);
        r
    }

    /// Join the result of one child to the accumulator.
    pub fn combine(&mut self, acc: R, r: R) -> (out: R)
        requires
            call_requires(old(self).fold, (acc, r)),
        ensures
            call_ensures(old(self).fold, (acc, r), out),
            *final(self) == *old(self),
    {
        (self.fold)(acc, r)
    }
}

} // verus!
