//! What holds of every traversal, stated over the trees that the contracts
//! of the traversals speak of.

use crate::model::Tree;
use crate::mutation::{MutateEverything, MutateForAll, Mutation};
use crate::query::Fallback;
use crate::query::{Everything, GenericQuery};
use crate::transform::{Everywhere, EverywhereBut, TransformForAll, Transformation};
use crate::typed::{tree_of, Typed};
use vstd::prelude::*;

verus! {

/// A tree without children is the only tree in its frame.
pub proof fn lemma_leaf_frame(before: Tree, mid: Tree)
    requires
        before.kids.len() == 0,
        before.same_frame(mid),
    ensures
        mid == before,
{
    assert(mid.kids =~= before.kids);
}

/// On a term without children a guarded traversal does what its guard and
/// its transformation do to the term itself: where the guard answers
/// `false` nothing changes, where it answers `true` the transformation is
/// applied to the term as it is.
pub proof fn lemma_everywhere_but_on_leaf<F, P>(e: EverywhereBut<F, P>, before: Tree, after: Tree) where
    F: TransformForAll,
    P: GenericQuery<bool>,

    requires
        before.kids.len() == 0,
    ensures
        e.rewrites(before, after) <==> {
            ||| e.p.answers(before, false) && after == before
            ||| e.p.answers(before, true) && e.f.rewrites(before, after)
        },
        e.accepts(before) <==> {
            &&& e.p.accepts(before)
            &&& e.p.answers(before, true) ==> e.f.accepts(before)
        },
{
    assert(e.layer(before, before));
    if e.p.answers(before, true) && exists|mid: Tree|
        e.layer(before, mid) && #[trigger] e.f.rewrites(mid, after) {
        let mid = choose|mid: Tree| e.layer(before, mid) && #[trigger] e.f.rewrites(mid, after);
        lemma_leaf_frame(before, mid);
    }
    assert forall|mid: Tree| e.layer(before, mid) implies #[trigger] e.f.accepts(mid) == e.f.accepts(
        before,
    ) by {
        lemma_leaf_frame(before, mid);
    }
}

/// On a term without children a traversal is its transformation applied
/// directly to the term.
pub proof fn lemma_everywhere_on_leaf<F>(e: Everywhere<F>, before: Tree, after: Tree) where
    F: TransformForAll,

    requires
        before.kids.len() == 0,
    ensures
        e.rewrites(before, after) <==> e.walk.f.rewrites(before, after),
        e.accepts(before) <==> e.walk.f.accepts(before),
{
    lemma_everywhere_but_on_leaf(e.walk, before, after);
}

/// On a term without children a query traversal is its query applied
/// directly to the term: nothing is joined.
pub proof fn lemma_everything_on_leaf<Q, R, F>(e: Everything<Q, R, F>, tree: Tree, out: R) where
    Q: GenericQuery<R>,
    F: FnMut(R, R) -> R,

    requires
        tree.kids.len() == 0,
    ensures
        e.collects(tree, out) <==> e.q.answers(tree, out),
        e.accepts(tree) <==> e.q.accepts(tree),
{
    if e.q.answers(tree, out) {
        assert(e.folds(tree, 0, out, out));
    }
}

/// A traversal does to a term what its transformation does to the term
/// whose immediate children the traversal has rewritten already: children
/// come before parents.
pub proof fn lemma_everywhere_bottom_up<F>(e: Everywhere<F>, before: Tree, after: Tree) where
    F: TransformForAll,

    ensures
        e.rewrites(before, after) <==> exists|mid: Tree|
            {
                &&& before.same_frame(mid)
                &&& forall|i: int|
                    0 <= i < before.kids.len() ==> e.rewrites(#[trigger] before.kids[i], mid.kids[i])
                &&& #[trigger] e.walk.f.rewrites(mid, after)
            },
{
    if e.rewrites(before, after) {
        let mid = choose|mid: Tree|
            e.walk.layer(before, mid) && #[trigger] e.walk.f.rewrites(mid, after);
        assert(before.same_frame(mid) && e.walk.f.rewrites(mid, after));
    }
    if exists|mid: Tree|
        {
            &&& before.same_frame(mid)
            &&& forall|i: int|
                0 <= i < before.kids.len() ==> e.rewrites(#[trigger] before.kids[i], mid.kids[i])
            &&& #[trigger] e.walk.f.rewrites(mid, after)
        } {
        let mid = choose|mid: Tree|
            {
                &&& before.same_frame(mid)
                &&& forall|i: int|
                    0 <= i < before.kids.len() ==> e.rewrites(#[trigger] before.kids[i], mid.kids[i])
                &&& #[trigger] e.walk.f.rewrites(mid, after)
            };
        assert(e.walk.layer(before, mid));
    }
}

/// A guarded traversal whose guard answers `true` for every value, and
/// nothing else, is the traversal without a guard.
pub proof fn lemma_everywhere_but_open<F, P>(
    e: EverywhereBut<F, P>,
    w: Everywhere<F>,
    before: Tree,
    after: Tree,
) where F: TransformForAll, P: GenericQuery<bool>
    requires
        w.walk.f == e.f,
        forall|tree: Tree, b: bool| #[trigger] e.p.answers(tree, b) <==> b,
    ensures
        e.rewrites(before, after) <==> w.rewrites(before, after),
    decreases before,
{
    assert forall|mid: Tree| #[trigger] e.f.rewrites(mid, after) implies (e.layer(before, mid)
        <==> w.walk.layer(before, mid)) by {
        assert forall|i: int| 0 <= i < before.kids.len() implies (e.rewrites(
            #[trigger] before.kids[i],
            mid.kids[i],
        ) <==> w.rewrites(before.kids[i], mid.kids[i])) by {
            lemma_everywhere_but_open(e, w, before.kids[i], mid.kids[i]);
        }
    }
    if e.rewrites(before, after) {
        let mid = choose|mid: Tree| e.layer(before, mid) && #[trigger] e.f.rewrites(mid, after);
        assert(w.walk.layer(before, mid) && w.walk.f.rewrites(mid, after));
    }
    if w.rewrites(before, after) {
        let mid = choose|mid: Tree|
            w.walk.layer(before, mid) && #[trigger] w.walk.f.rewrites(mid, after);
        assert(e.layer(before, mid) && e.f.rewrites(mid, after));
    }
}

/// Where the guard answers `false` and nothing else for a term, a guarded
/// traversal leaves the term and everything beneath it as it is, whatever
/// the transformation would do to it, and asks nothing of the
/// transformation: it is not called.
pub proof fn lemma_everywhere_but_prunes<F, P>(e: EverywhereBut<F, P>, before: Tree, after: Tree) where
    F: TransformForAll,
    P: GenericQuery<bool>,

    requires
        !e.p.answers(before, true),
    ensures
        e.rewrites(before, after) ==> after == before,
        e.accepts(before) <==> e.p.accepts(before),
{
}

/// A transformation whose function returns what it is given returns every
/// value of every type as it is.
pub proof fn lemma_transformation_identity<F, U>(t: Transformation<F, U>, before: Tree, after: Tree) where
    F: FnMut(U) -> U,
    U: Typed,

    requires
        forall|u: U, v: U| #[trigger] call_ensures(t.f, (u,), v) ==> v == u,
        t.rewrites(before, after),
    ensures
        after == before,
{
}

/// A guarded traversal with a transformation that changes nothing changes
/// nothing.
pub proof fn lemma_everywhere_but_identity<F, P>(e: EverywhereBut<F, P>, before: Tree, after: Tree) where
    F: TransformForAll,
    P: GenericQuery<bool>,

    requires
        forall|a: Tree, b: Tree| #[trigger] e.f.rewrites(a, b) ==> b == a,
        e.rewrites(before, after),
    ensures
        after == before,
    decreases before,
{
    if after != before {
        let mid = choose|mid: Tree| e.layer(before, mid) && #[trigger] e.f.rewrites(mid, after);
        assert forall|i: int| 0 <= i < before.kids.len() implies mid.kids[i] == before.kids[i] by {
            lemma_everywhere_but_identity(e, before.kids[i], mid.kids[i]);
        }
        assert(mid.kids =~= before.kids);
    }
}

/// The identity law: a traversal with the transformation of a function
/// that returns what it is given returns a term equal to the one it was
/// given, however many values of the function's type the term holds.
pub proof fn lemma_everywhere_identity<F, U>(
    e: Everywhere<Transformation<F, U>>,
    before: Tree,
    after: Tree,
) where F: FnMut(U) -> U, U: Typed
    requires
        forall|u: U, v: U| #[trigger] call_ensures(e.walk.f.f, (u,), v) ==> v == u,
        e.rewrites(before, after),
    ensures
        after == before,
{
    assert forall|a: Tree, b: Tree| #[trigger] e.walk.f.rewrites(a, b) implies b == a by {
        lemma_transformation_identity(e.walk.f, a, b);
    }
    lemma_everywhere_but_identity(e.walk, before, after);
}

/// A traversal leaves a term that holds no value of the type of its
/// transformation as it is.
pub proof fn lemma_everywhere_without_target<F, U>(
    e: Everywhere<Transformation<F, U>>,
    before: Tree,
    after: Tree,
) where F: FnMut(U) -> U, U: Typed
    requires
        !before.holds(U::key()),
        e.rewrites(before, after),
    ensures
        after == before,
    decreases before,
{
    let mid = choose|mid: Tree|
        e.walk.layer(before, mid) && #[trigger] e.walk.f.rewrites(mid, after);
    assert forall|i: int| 0 <= i < before.kids.len() implies mid.kids[i] == before.kids[i] by {
        lemma_everywhere_without_target(e, before.kids[i], mid.kids[i]);
    }
    assert(mid.kids =~= before.kids);
}

/// A mutation traversal leaves those of the first `n` children of a term
/// as they are that hold no value of the type of its mutation.
pub proof fn lemma_threads_without_target<M, U, D, R, F>(
    e: MutateEverything<Mutation<M, U, D, R>, R, F>,
    mid: Tree,
    after: Tree,
    n: nat,
    acc0: R,
    acc: R,
) where M: FnMut(&mut U) -> R, U: Typed, D: Fallback<R>, F: FnMut(R, R) -> R
    requires
        forall|i: int| 0 <= i < n ==> !(#[trigger] mid.kids[i]).holds(U::key()),
        e.threads(mid, after, n, acc0, acc),
    ensures
        forall|i: int| 0 <= i < n ==> after.kids[i] == mid.kids[i],
    decreases after, n,
{
    if n > 0 {
        let (prev, r) = choose|prev: R, r: R|
            e.threads(mid, after, (n - 1) as nat, acc0, prev) && e.mutates(
                mid.kids[n - 1],
                after.kids[n - 1],
                r,
            ) && #[trigger] call_ensures(e.fold, (prev, r), acc);
        lemma_threads_without_target(e, mid, after, (n - 1) as nat, acc0, prev);
        lemma_mutate_everything_without_target(e, mid.kids[n - 1], after.kids[n - 1], r);
    }
}

/// A mutation traversal leaves a term that holds no value of the type of
/// its mutation as it is.
pub proof fn lemma_mutate_everything_without_target<M, U, D, R, F>(
    e: MutateEverything<Mutation<M, U, D, R>, R, F>,
    before: Tree,
    after: Tree,
    out: R,
) where M: FnMut(&mut U) -> R, U: Typed, D: Fallback<R>, F: FnMut(R, R) -> R
    requires
        !before.holds(U::key()),
        e.mutates(before, after, out),
    ensures
        after == before,
    decreases after, after.kids.len() + 1,
{
    let (mid, seed) = choose|mid: Tree, seed: R| #[trigger]
        e.m.alters(before, mid, seed) && mid.same_frame(after) && e.threads(
            mid,
            after,
            after.kids.len(),
            seed,
            out,
        );
    lemma_threads_without_target(e, mid, after, after.kids.len(), seed, out);
    assert(after.kids =~= before.kids);
}

/// A traversal may leave a term that holds no value of the type of its
/// transformation as it is: together with
/// `lemma_everywhere_without_target`, that is all it can do to it.
pub proof fn lemma_everywhere_rests_without_target<F, U>(
    e: Everywhere<Transformation<F, U>>,
    tree: Tree,
) where F: FnMut(U) -> U, U: Typed
    requires
        !tree.holds(U::key()),
    ensures
        e.rewrites(tree, tree),
    decreases tree,
{
    assert forall|i: int| 0 <= i < tree.kids.len() implies e.rewrites(
        #[trigger] tree.kids[i],
        tree.kids[i],
    ) by {
        lemma_everywhere_rests_without_target(e, tree.kids[i]);
    }
    assert(e.walk.layer(tree, tree) && e.walk.f.rewrites(tree, tree));
}

/// The mutation traversal and the transformation traversal, for the first
/// `n` children of a term: see `lemma_mutate_everything_is_everywhere`.
pub proof fn lemma_threads_is_layer<M, U, D, R, G, F>(
    m: MutateEverything<Mutation<M, U, D, R>, R, G>,
    w: Everywhere<Transformation<F, U>>,
    mid: Tree,
    after: Tree,
    n: nat,
    acc0: R,
    acc: R,
) where
    M: FnMut(&mut U) -> R,
    U: Typed,
    D: Fallback<R>,
    G: FnMut(R, R) -> R,
    F: FnMut(U) -> U,

    requires
        forall|u: U, v: U, r: R| #[trigger] m.m.edits(u, v, r) ==> call_ensures(w.walk.f.f, (u,), v),
        forall|u: U, i: int|
            0 <= i < tree_of(u).kids.len() ==> !(#[trigger] tree_of(u).kids[i]).holds(U::key()),
        m.threads(mid, after, n, acc0, acc),
    ensures
        forall|i: int| 0 <= i < n ==> w.rewrites(#[trigger] mid.kids[i], after.kids[i]),
    decreases after, n,
{
    if n > 0 {
        let (prev, r) = choose|prev: R, r: R|
            m.threads(mid, after, (n - 1) as nat, acc0, prev) && m.mutates(
                mid.kids[n - 1],
                after.kids[n - 1],
                r,
            ) && #[trigger] call_ensures(m.fold, (prev, r), acc);
        lemma_threads_is_layer(m, w, mid, after, (n - 1) as nat, acc0, prev);
        lemma_mutate_everything_is_everywhere(m, w, mid.kids[n - 1], after.kids[n - 1], r);
    }
}

/// The mutation traversal does what the transformation traversal does:
/// where the mutation edits a value in place as the transformation
/// rewrites it, and no value of their type holds another, whatever the
/// mutation traversal may make of a term the transformation traversal may
/// make of it too. Top down or bottom up, in place or by building anew,
/// the term that comes out is the same.
pub proof fn lemma_mutate_everything_is_everywhere<M, U, D, R, G, F>(
    m: MutateEverything<Mutation<M, U, D, R>, R, G>,
    w: Everywhere<Transformation<F, U>>,
    before: Tree,
    after: Tree,
    out: R,
) where
    M: FnMut(&mut U) -> R,
    U: Typed,
    D: Fallback<R>,
    G: FnMut(R, R) -> R,
    F: FnMut(U) -> U,

    requires
        forall|u: U, v: U, r: R| #[trigger] m.m.edits(u, v, r) ==> call_ensures(w.walk.f.f, (u,), v),
        forall|u: U, i: int|
            0 <= i < tree_of(u).kids.len() ==> !(#[trigger] tree_of(u).kids[i]).holds(U::key()),
        m.mutates(before, after, out),
    ensures
        w.rewrites(before, after),
    decreases after, after.kids.len() + 1,
{
    let (mid, seed) = choose|mid: Tree, seed: R| #[trigger]
        m.m.alters(before, mid, seed) && mid.same_frame(after) && m.threads(
            mid,
            after,
            after.kids.len(),
            seed,
            out,
        );
    if before.sort == U::key() && m.m.maps(before, mid, seed) {
        let (u, v) = choose|u: U, v: U|
            tree_of(u) == before && tree_of(v) == mid && #[trigger] m.m.edits(u, v, seed);
        assert forall|i: int| 0 <= i < mid.kids.len() implies !(#[trigger] mid.kids[i]).holds(
            U::key(),
        ) by {
            assert(!tree_of(v).kids[i].holds(U::key()));
        }
        lemma_threads_without_target(m, mid, after, after.kids.len(), seed, out);
        assert(after.kids =~= mid.kids);
        assert forall|i: int| 0 <= i < before.kids.len() implies w.rewrites(
            #[trigger] before.kids[i],
            before.kids[i],
        ) by {
            assert(!tree_of(u).kids[i].holds(U::key()));
            lemma_everywhere_rests_without_target(w, before.kids[i]);
        }
        assert(call_ensures(w.walk.f.f, (u,), v));
        assert(w.walk.f.maps(before, after));
        assert(w.walk.layer(before, before) && w.walk.f.rewrites(before, after));
    } else {
        lemma_threads_is_layer(m, w, mid, after, after.kids.len(), seed, out);
        assert(w.walk.layer(before, after) && w.walk.f.rewrites(after, after));
    }
}

/// A guarded traversal whose guard and transformation accept every value
/// accepts every term.
pub proof fn lemma_everywhere_but_total<F, P>(e: EverywhereBut<F, P>, before: Tree) where
    F: TransformForAll,
    P: GenericQuery<bool>,

    requires
        forall|tree: Tree| #[trigger] e.p.accepts(tree),
        forall|tree: Tree| #[trigger] e.f.accepts(tree),
    ensures
        e.accepts(before),
    decreases before,
{
    assert forall|i: int| 0 <= i < before.kids.len() implies e.accepts(
        #[trigger] before.kids[i],
    ) by {
        lemma_everywhere_but_total(e, before.kids[i]);
    }
}

/// A traversal whose transformation accepts every value accepts every
/// term.
pub proof fn lemma_everywhere_total<F>(e: Everywhere<F>, before: Tree) where F: TransformForAll
    requires
        forall|tree: Tree| #[trigger] e.walk.f.accepts(tree),
    ensures
        e.accepts(before),
{
    lemma_everywhere_but_total(e.walk, before);
}

/// A query traversal whose query accepts every value and whose joining
/// function accepts every pair of results accepts the first `n` children
/// of every term.
pub proof fn lemma_feeds_total<Q, R, F>(e: Everything<Q, R, F>, tree: Tree, n: nat, acc0: R) where
    Q: GenericQuery<R>,
    F: FnMut(R, R) -> R,

    requires
        forall|t: Tree| #[trigger] e.q.accepts(t),
        forall|a: R, b: R| #[trigger] call_requires(e.fold, (a, b)),
        n <= tree.kids.len(),
    ensures
        e.feeds(tree, n, acc0),
    decreases tree, n,
{
    if n > 0 {
        lemma_feeds_total(e, tree, (n - 1) as nat, acc0);
        lemma_everything_total(e, tree.kids[n - 1]);
    }
}

/// A query traversal whose query accepts every value and whose joining
/// function accepts every pair of results accepts every term.
pub proof fn lemma_everything_total<Q, R, F>(e: Everything<Q, R, F>, tree: Tree) where
    Q: GenericQuery<R>,
    F: FnMut(R, R) -> R,

    requires
        forall|t: Tree| #[trigger] e.q.accepts(t),
        forall|a: R, b: R| #[trigger] call_requires(e.fold, (a, b)),
    ensures
        e.accepts(tree),
    decreases tree, tree.kids.len() + 1,
{
    assert forall|seed: R| #[trigger] e.q.answers(tree, seed) implies e.feeds(
        tree,
        tree.kids.len(),
        seed,
    ) by {
        lemma_feeds_total(e, tree, tree.kids.len(), seed);
    }
}

/// A mutation traversal whose mutation accepts every value and whose
/// joining function accepts every pair of results accepts every term.
pub proof fn lemma_mutate_everything_total<M, R, F>(e: MutateEverything<M, R, F>, before: Tree) where
    M: MutateForAll<R>,
    F: FnMut(R, R) -> R,

    requires
        forall|tree: Tree| #[trigger] e.m.accepts(tree),
        forall|a: R, b: R| #[trigger] call_requires(e.fold, (a, b)),
    ensures
        e.accepts(before),
{
    let inv = |tree: Tree| true;
    assert(e.closed(inv) && inv(before));
}

/// The order of a query traversal, for the first `n` children of a term:
/// see `lemma_everything_in_order`.
pub proof fn lemma_folds_in_order<Q, R, F, X>(
    e: Everything<Q, R, F>,
    see: spec_fn(R) -> Seq<X>,
    ask: spec_fn(Tree) -> Seq<X>,
    tree: Tree,
    n: nat,
    acc0: R,
    acc: R,
) where Q: GenericQuery<R>, F: FnMut(R, R) -> R
    requires
        forall|t: Tree, r: R| #[trigger] e.q.answers(t, r) ==> see(r) == ask(t),
        forall|a: R, b: R, c: R| #[trigger]
            call_ensures(e.fold, (a, b), c) ==> see(c) == see(a) + see(b),
        e.folds(tree, n, acc0, acc),
    ensures
        see(acc) == see(acc0) + tree.listing_upto(ask, n),
    decreases tree, n,
{
    if n == 0 {
        assert(see(acc0) + Seq::<X>::empty() =~= see(acc0));
    } else {
        let (prev, r) = choose|prev: R, r: R|
            e.folds(tree, (n - 1) as nat, acc0, prev) && e.collects(tree.kids[n - 1], r)
                && #[trigger] call_ensures(e.fold, (prev, r), acc);
        lemma_folds_in_order(e, see, ask, tree, (n - 1) as nat, acc0, prev);
        lemma_everything_in_order(e, see, ask, tree.kids[n - 1], r);
        assert((see(acc0) + tree.listing_upto(ask, (n - 1) as nat)) + tree.kids[n - 1].listing(ask)
            =~= see(acc0) + (tree.listing_upto(ask, (n - 1) as nat) + tree.kids[n
            - 1].listing(ask)));
    }
}

/// The order of a query traversal: a node is queried before its children,
/// and the children, each to full depth, from left to right. Whatever can
/// be seen of the results as a sequence that the joining function
/// concatenates comes out in that order.
pub proof fn lemma_everything_in_order<Q, R, F, X>(
    e: Everything<Q, R, F>,
    see: spec_fn(R) -> Seq<X>,
    ask: spec_fn(Tree) -> Seq<X>,
    tree: Tree,
    out: R,
) where Q: GenericQuery<R>, F: FnMut(R, R) -> R
    requires
        forall|t: Tree, r: R| #[trigger] e.q.answers(t, r) ==> see(r) == ask(t),
        forall|a: R, b: R, c: R| #[trigger]
            call_ensures(e.fold, (a, b), c) ==> see(c) == see(a) + see(b),
        e.collects(tree, out),
    ensures
        see(out) == tree.listing(ask),
    decreases tree, tree.kids.len() + 1,
{
    let seed = choose|seed: R| #[trigger]
        e.q.answers(tree, seed) && e.folds(tree, tree.kids.len(), seed, out);
    lemma_folds_in_order(e, see, ask, tree, tree.kids.len(), seed, out);
}

/// The count of a mutation traversal, for the first `n` children of a
/// term: see `lemma_mutate_everything_counts`.
pub proof fn lemma_threads_count<M, R, F>(
    e: MutateEverything<M, R, F>,
    weigh: spec_fn(R) -> int,
    mid: Tree,
    after: Tree,
    n: nat,
    acc0: R,
    acc: R,
) where M: MutateForAll<R>, F: FnMut(R, R) -> R
    requires
        forall|a: Tree, b: Tree, r: R| #[trigger] e.m.alters(a, b, r) ==> weigh(r) == 1,
        forall|a: R, b: R, c: R| #[trigger]
            call_ensures(e.fold, (a, b), c) ==> weigh(c) == weigh(a) + weigh(b),
        e.threads(mid, after, n, acc0, acc),
    ensures
        weigh(acc) == weigh(acc0) + after.size_upto(n),
    decreases after, n,
{
    if n > 0 {
        let (prev, r) = choose|prev: R, r: R|
            e.threads(mid, after, (n - 1) as nat, acc0, prev) && e.mutates(
                mid.kids[n - 1],
                after.kids[n - 1],
                r,
            ) && #[trigger] call_ensures(e.fold, (prev, r), acc);
        lemma_threads_count(e, weigh, mid, after, (n - 1) as nat, acc0, prev);
        lemma_mutate_everything_counts(e, weigh, mid.kids[n - 1], after.kids[n - 1], r);
    }
}

/// The count of a mutation traversal: the mutation is applied once to
/// every node of the term that the traversal leaves behind. Where every
/// result of the mutation weighs one and the joining function adds the
/// weights, the result of the traversal weighs as much as the term has
/// nodes.
pub proof fn lemma_mutate_everything_counts<M, R, F>(
    e: MutateEverything<M, R, F>,
    weigh: spec_fn(R) -> int,
    before: Tree,
    after: Tree,
    out: R,
) where M: MutateForAll<R>, F: FnMut(R, R) -> R
    requires
        forall|a: Tree, b: Tree, r: R| #[trigger] e.m.alters(a, b, r) ==> weigh(r) == 1,
        forall|a: R, b: R, c: R| #[trigger]
            call_ensures(e.fold, (a, b), c) ==> weigh(c) == weigh(a) + weigh(b),
        e.mutates(before, after, out),
    ensures
        weigh(out) == after.size(),
    decreases after, after.kids.len() + 1,
{
    let (mid, seed) = choose|mid: Tree, seed: R| #[trigger]
        e.m.alters(before, mid, seed) && mid.same_frame(after) && e.threads(
            mid,
            after,
            after.kids.len(),
            seed,
            out,
        );
    lemma_threads_count(e, weigh, mid, after, after.kids.len(), seed, out);
}

} // verus!
