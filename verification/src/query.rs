//! Queries: lifting a function on references to one type into a function on
//! references to any type, and folding it over every node of a term.

use crate::cast::cast_ref;
use crate::model::Tree;
use crate::term::Term;
use crate::typed::{is_a, tree_of, Typed};
use core::marker::PhantomData;
use vstd::prelude::*;

verus! {

/// A function from a reference to a value of any type to an `R`.
pub trait GenericQuery<R>: Sized {
    /// Whether the query may be asked of a value with this tree.
    spec fn accepts(&self, tree: Tree) -> bool;

    /// Whether `r` is a possible answer for a value with this tree.
    spec fn answers(&self, tree: Tree, r: R) -> bool;

    /// Call the query function on any `T`.
    fn query<T: Typed>(&mut self, t: &T) -> (r: R)
        requires
            old(self).accepts(tree_of(*t)),
        ensures
            old(self).answers(tree_of(*t), r),
            *final(self) == *old(self),
    ;
}

/// What produces the answer for a value that is not of the type asked for.
pub trait Fallback<R>: Sized {
    /// Whether a value may be asked for.
    spec fn ready(&self) -> bool;

    /// Whether `r` is a possible value.
    spec fn makes(&self, r: R) -> bool;

    /// Produce the value.
    fn make(&mut self) -> (r: R)
        requires
            old(self).ready(),
        ensures
            old(self).makes(r),
            *final(self) == *old(self),
    ;
}

/// A function without arguments is a fallback: its result is the value.
impl<R, D: FnMut() -> R> Fallback<R> for D {
    open spec fn ready(&self) -> bool {
        call_requires(*self, ())
    }

    open spec fn makes(&self, r: R) -> bool {
        call_ensures(*self, (), r)
    }

    fn make(&mut self) -> (r: R) {
        self()
    }
}

/// The fallback that produces the canonical empty value of the result type.
#[derive(Debug)]
pub struct ByDefault;

impl<R: Default> Fallback<R> for ByDefault {
    open spec fn ready(&self) -> bool {
        call_requires(R::default, ())
    }

    open spec fn makes(&self, r: R) -> bool {
        call_ensures(R::default, (), r)
    }

    fn make(&mut self) -> (r: R) {
        R::default()
    }
}

/// A query creates some value `R` from references to a `U`. It can be called
/// on values of any type `T`, not just on values of type `U`, so it holds a
/// fallback for the values which are not a `U`.
#[derive(Debug)]
pub struct Query<Q, U, D, R> {
    pub make_default: D,
    pub query: Q,
    pub phantom: PhantomData<(U, R)>,
}

impl<Q, U, R> Query<Q, U, ByDefault, R> where Q: FnMut(&U) -> R, U: Typed, R: Default {
    /// Construct a new `Query`, returning `R::default()` for the cases where
    /// we query a value whose type is not `U`.
    ///
    /// What the query accepts and answers is what `takes` and `tells` say:
    /// the contract repeats it for callers whose function is a closure.
    pub fn new(query: Q) -> (r: Query<Q, U, ByDefault, R>)
        ensures
            r.query == query,
            forall|tree: Tree| #[trigger] r.accepts(tree) <==> r.takes(tree),
            forall|tree: Tree, out: R| #[trigger] r.answers(tree, out) <==> r.tells(tree, out),
    {
        Query { make_default: ByDefault, query, phantom: PhantomData }
    }
}

impl<Q, U, D, R> Query<Q, U, D, R> where Q: FnMut(&U) -> R, U: Typed, D: FnMut() -> R {
    /// Construct a new `Query`, returning `make_default()` for the cases
    /// where we query a value whose type is not `U`.
    ///
    /// What the query accepts and answers is what `takes` and `tells` say,
    /// and its fallback is `make_default` with its own `requires` and
    /// `ensures`: the contract repeats it for callers whose functions are
    /// closures.
    pub fn or_else(make_default: D, query: Q) -> (r: Query<Q, U, D, R>)
        ensures
            r.make_default == make_default,
            r.query == query,
            r.make_default.ready() <==> call_requires(make_default, ()),
            forall|out: R| #[trigger]
                r.make_default.makes(out) <==> call_ensures(make_default, (), out),
            forall|tree: Tree| #[trigger] r.accepts(tree) <==> r.takes(tree),
            forall|tree: Tree, out: R| #[trigger] r.answers(tree, out) <==> r.tells(tree, out),
    {
        Query { make_default, query, phantom: PhantomData }
    }
}

impl<Q, U, D, R> Query<Q, U, D, R> where Q: FnMut(&U) -> R, U: Typed, D: Fallback<R> {
    /// Whether `r` is a possible result of the wrapped function on a `U`
    /// with this tree.
    pub open spec fn asks(&self, tree: Tree, r: R) -> bool {
        exists|u: U| tree_of(u) == tree && #[trigger] call_ensures(self.query, (&u,), r)
    }

    /// The wrapped function takes every `U` with this tree, and the fallback
    /// is ready where the value is of another type.
    pub open spec fn takes(&self, tree: Tree) -> bool {
        &&& forall|u: U| tree_of(u) == tree ==> #[trigger] call_requires(self.query, (&u,))
        &&& !is_a::<U>(tree) ==> self.make_default.ready()
    }

    /// For a `U` the answer is the wrapped function's, for a value of
    /// another type the fallback's.
    pub open spec fn tells(&self, tree: Tree, r: R) -> bool {
        if is_a::<U>(tree) {
            self.asks(tree, r)
        } else {
            self.make_default.makes(r)
        }
    }

    /// What the query answers once the cast has been made: where the value
    /// has turned out to be a `U`, what the wrapped function returns for
    /// it; where it has not, what the fallback makes.
    pub fn answer(&mut self, found: Option<&U>) -> (r: R)
        requires
            match found {
                Some(u) => call_requires(old(self).query, (u,)),
                None => old(self).make_default.ready(),
            },
        ensures
            match found {
                Some(u) => call_ensures(old(self).query, (u,), r),
                None => old(self).make_default.makes(r),
            },
            *final(self) == *old(self),
    {
        match found {
            Some(u) => (self.query)(u),
            None => self.make_default.make(),
        }
    }
}

impl<Q, U, D, R> GenericQuery<R> for Query<Q, U, D, R> where
    Q: FnMut(&U) -> R,
    U: Typed,
    D: Fallback<R>,
 {
    open spec fn accepts(&self, tree: Tree) -> bool {
        self.takes(tree)
    }

    open spec fn answers(&self, tree: Tree, r: R) -> bool {
        self.tells(tree, r)
    }

    fn query<T: Typed>(&mut self, t: &T) -> (r: R) {
        let found = cast_ref::<T, U>(t);
        self.answer(found)
    }
}

/// Recursively perform a query in a top-down, left-to-right manner across a
/// data structure. The `Q: GenericQuery<R>` queries individual values, while
/// the `F: FnMut(R, R) -> R` joins the results of multiple queries into a
/// single result.
#[derive(Debug)]
pub struct Everything<Q, R, F> {
    pub q: Q,
    pub fold: F,
    pub phantom: PhantomData<R>,
}

impl<Q, R, F> Everything<Q, R, F> where Q: GenericQuery<R>, F: FnMut(R, R) -> R {
    /// Construct a new `Everything` query traversal.
    pub fn new(q: Q, fold: F) -> (r: Everything<Q, R, F>)
        ensures
            r.q == q,
            r.fold == fold,
    {
        Everything { q, fold, phantom: PhantomData }
    }

    /// Whether `acc` is a possible accumulator once the first `n` children
    /// of `tree` have been queried to full depth and joined, one after the
    /// other from the left, to an accumulator that started as `acc0`.
    pub open spec fn folds(&self, tree: Tree, n: nat, acc0: R, acc: R) -> bool
        decreases tree, n,
    {
        if n == 0 {
            acc == acc0
        } else if n > tree.kids.len() {
            false
        } else {
            exists|prev: R, r: R|
                self.folds(tree, (n - 1) as nat, acc0, prev) && self.collects(tree.kids[n - 1], r)
                    && #[trigger] call_ensures(self.fold, (prev, r), acc)
        }
    }

    /// Whether `out` is a possible result of the traversal of `tree`: the
    /// node's own answer comes first, then the results of its children are
    /// joined to it from left to right.
    pub open spec fn collects(&self, tree: Tree, out: R) -> bool
        decreases tree, tree.kids.len() + 1,
    {
        exists|seed: R| #[trigger]
            self.q.answers(tree, seed) && self.folds(tree, tree.kids.len(), seed, out)
    }

    /// Whether every call made while the first `n` children of `tree` are
    /// queried and joined to `acc0` is one that the query and the joining
    /// function accept.
    pub open spec fn feeds(&self, tree: Tree, n: nat, acc0: R) -> bool
        decreases tree, n,
    {
        if n == 0 {
            true
        } else if n > tree.kids.len() {
            false
        } else {
            &&& self.feeds(tree, (n - 1) as nat, acc0)
            &&& self.accepts(tree.kids[n - 1])
            &&& forall|prev: R, r: R|
                self.folds(tree, (n - 1) as nat, acc0, prev) && self.collects(tree.kids[n - 1], r)
                    ==> #[trigger] call_requires(self.fold, (prev, r))
        }
    }

    /// Whether every call that the traversal of `tree` may make is one that
    /// the query and the joining function accept.
    pub open spec fn accepts(&self, tree: Tree) -> bool
        decreases tree, tree.kids.len() + 1,
    {
        &&& self.q.accepts(tree)
        &&& forall|seed: R| #[trigger]
            self.q.answers(tree, seed) ==> self.feeds(tree, tree.kids.len(), seed)
    }

    /// What `collects`, `folds`, `accepts` and `feeds` say of a term,
    /// spelled out for callers whose functions are closures.
    pub proof fn lemma_unfold(&self, tree: Tree, n: nat, acc0: R, acc: R)
        ensures
            self.collects(tree, acc) <==> exists|seed: R| #[trigger]
                self.q.answers(tree, seed) && self.folds(tree, tree.kids.len(), seed, acc),
            self.folds(tree, 0, acc0, acc) <==> acc == acc0,
            0 < n <= tree.kids.len() ==> (self.folds(tree, n, acc0, acc) <==> exists|
                prev: R,
                r: R,
            |
                self.folds(tree, (n - 1) as nat, acc0, prev) && self.collects(tree.kids[n - 1], r)
                    && #[trigger] call_ensures(self.fold, (prev, r), acc)),
            self.accepts(tree) <==> {
                &&& self.q.accepts(tree)
                &&& forall|seed: R| #[trigger]
                    self.q.answers(tree, seed) ==> self.feeds(tree, tree.kids.len(), seed)
            },
            self.feeds(tree, 0, acc0),
            0 < n <= tree.kids.len() ==> (self.feeds(tree, n, acc0) <==> {
                &&& self.feeds(tree, (n - 1) as nat, acc0)
                &&& self.accepts(tree.kids[n - 1])
                &&& forall|prev: R, r: R|
                    self.folds(tree, (n - 1) as nat, acc0, prev) && self.collects(
                        tree.kids[n - 1],
                        r,
                    ) ==> #[trigger] call_requires(self.fold, (prev, r))
            }),
    {
    }

    /// What is accepted for the first `n` children is accepted for the
    /// first `m` of them.
    pub proof fn lemma_feeds_prefix(&self, tree: Tree, n: nat, m: nat, acc0: R)
        requires
            self.feeds(tree, n, acc0),
            m <= n,
        ensures
            self.feeds(tree, m, acc0),
        decreases n,
    {
        if m < n {
            self.lemma_feeds_prefix(tree, (n - 1) as nat, m, acc0);
        }
    }

    /// Query `t` and everything beneath it, and join the answers: the
    /// node's own first, then those of its children from left to right.
    pub fn query<T: Term>(&mut self, t: &T) -> (r: R)
        requires
            old(self).accepts(tree_of(*t)),
        ensures
            old(self).collects(tree_of(*t), r),
            *final(self) == *old(self),
    {
        let seed = self.q.query(t);
        t.map_one_query(self, seed)
    }

    /// Join the result of one child to the accumulator.
    pub fn combine(&mut self, acc: R, r: R) -> (out: R)
        requires
            call_requires(old(self).fold, (acc, r)),
        ensures
            call_ensures(old(self).fold, (acc, r), out),
            *final(self) == *old(self),
    {
        (self.fold)(acc, r)
    }
}

} // verus!
