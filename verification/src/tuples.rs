//! The protocol for tuples: the immediate children of a tuple are its
//! components, in the order in which they are written.

use crate::model::{Name, Sort, Tree};
use crate::mutation::{MutateEverything, MutateForAll};
use crate::query::{Everything, GenericQuery};
use crate::term::Term;
use crate::transform::{EverywhereBut, TransformForAll};
use crate::typed::{exact, tree_of, Typed};
use vstd::prelude::*;

verus! {

impl<T0: Typed, T1: Typed> Typed for (T0, T1) {
    open spec fn key() -> Sort {
        Sort { name: Name::Tuple, args: seq![T0::key(), T1::key()] }
    }

    open spec fn kids(&self) -> Seq<Tree> {
        seq![tree_of(self.0), tree_of(self.1)]
    }
}

impl<T0: Term, T1: Term> Term for (T0, T1) {
    fn map_one_transform<F, P>(self, f: &mut EverywhereBut<F, P>) -> (r: Self) where
        F: TransformForAll,
        P: GenericQuery<bool>,
     {
        let ghost before = tree_of(self);
        assert(before.kids[0] == tree_of(self.0));
        assert(before.kids[1] == tree_of(self.1));
        let (t0, t1) = self;
        let r0 = f.transform(t0);
        let r1 = f.transform(t1);
        (r0, r1)
    }

    fn map_one_query<Q, R, F>(&self, q: &mut Everything<Q, R, F>, acc: R) -> (out: R) where
        Q: GenericQuery<R>,
        F: FnMut(R, R) -> R,
     {
        let ghost tree = tree_of(*self);
        proof {
            old(q).lemma_feeds_prefix(tree, 2, 1, acc);
        }
        let r0 = q.query(&self.0);
        let a0 = q.combine(acc, r0);
        assert(old(q).folds(tree, 0, acc, acc) && old(q).collects(tree.kids[0], r0) && call_ensures(
            old(q).fold,
            (acc, r0),
            a0,
        ));
        let r1 = q.query(&self.1);
        let a1 = q.combine(a0, r1);
        assert(old(q).folds(tree, 1, acc, a0) && old(q).collects(tree.kids[1], r1) && call_ensures(
            old(q).fold,
            (a0, r1),
            a1,
        ));
        a1
    }

    fn map_one_mutation<M, R, F>(&mut self, m: &mut MutateEverything<M, R, F>, acc: R) -> (out:
        R) where M: MutateForAll<R>, F: FnMut(R, R) -> R {
        let ghost before = tree_of(*self);
        assert(before.kids[0] == tree_of(self.0));
        assert(before.kids[1] == tree_of(self.1));
        let r0 = m.mutate(&mut self.0);
        let ghost s0 = tree_of(*self);
        proof {
            old(m).lemma_threads_prefix(before, before, s0, 0, acc, acc);
            assert(s0.kids[0] == tree_of(self.0));
        }
        let a0 = m.combine(acc, r0);
        let r1 = m.mutate(&mut self.1);
        let ghost s1 = tree_of(*self);
        proof {
            old(m).lemma_threads_prefix(before, s0, s1, 1, acc, a0);
            assert(s1.kids[1] == tree_of(self.1));
        }
        let a1 = m.combine(a0, r1);
        a1
    }
}

impl<T0: Typed, T1: Typed, T2: Typed> Typed for (T0, T1, T2) {
    open spec fn key() -> Sort {
        Sort { name: Name::Tuple, args: seq![T0::key(), T1::key(), T2::key()] }
    }

    open spec fn kids(&self) -> Seq<Tree> {
        seq![tree_of(self.0), tree_of(self.1), tree_of(self.2)]
    }
}

impl<T0: Term, T1: Term, T2: Term> Term for (T0, T1, T2) {
    fn map_one_transform<F, P>(self, f: &mut EverywhereBut<F, P>) -> (r: Self) where
        F: TransformForAll,
        P: GenericQuery<bool>,
     {
        let ghost before = tree_of(self);
        assert(before.kids[0] == tree_of(self.0));
        assert(before.kids[1] == tree_of(self.1));
        assert(before.kids[2] == tree_of(self.2));
        let (t0, t1, t2) = self;
        let r0 = f.transform(t0);
        let r1 = f.transform(t1);
        let r2 = f.transform(t2);
        (r0, r1, r2)
    }

    fn map_one_query<Q, R, F>(&self, q: &mut Everything<Q, R, F>, acc: R) -> (out: R) where
        Q: GenericQuery<R>,
        F: FnMut(R, R) -> R,
     {
        let ghost tree = tree_of(*self);
        proof {
            old(q).lemma_feeds_prefix(tree, 3, 1, acc);
            old(q).lemma_feeds_prefix(tree, 3, 2, acc);
        }
        let r0 = q.query(&self.0);
        let a0 = q.combine(acc, r0);
        assert(old(q).folds(tree, 0, acc, acc) && old(q).collects(tree.kids[0], r0) && call_ensures(
            old(q).fold,
            (acc, r0),
            a0,
        ));
        let r1 = q.query(&self.1);
        let a1 = q.combine(a0, r1);
        assert(old(q).folds(tree, 1, acc, a0) && old(q).collects(tree.kids[1], r1) && call_ensures(
            old(q).fold,
            (a0, r1),
            a1,
        ));
        let r2 = q.query(&self.2);
        let a2 = q.combine(a1, r2);
        assert(old(q).folds(tree, 2, acc, a1) && old(q).collects(tree.kids[2], r2) && call_ensures(
            old(q).fold,
            (a1, r2),
            a2,
        ));
        a2
    }

    fn map_one_mutation<M, R, F>(&mut self, m: &mut MutateEverything<M, R, F>, acc: R) -> (out:
        R) where M: MutateForAll<R>, F: FnMut(R, R) -> R {
        let ghost before = tree_of(*self);
        assert(before.kids[0] == tree_of(self.0));
        assert(before.kids[1] == tree_of(self.1));
        assert(before.kids[2] == tree_of(self.2));
        let r0 = m.mutate(&mut self.0);
        let ghost s0 = tree_of(*self);
        proof {
            old(m).lemma_threads_prefix(before, before, s0, 0, acc, acc);
            assert(s0.kids[0] == tree_of(self.0));
        }
        let a0 = m.combine(acc, r0);
        let r1 = m.mutate(&mut self.1);
        let ghost s1 = tree_of(*self);
        proof {
            old(m).lemma_threads_prefix(before, s0, s1, 1, acc, a0);
            assert(s1.kids[1] == tree_of(self.1));
        }
        let a1 = m.combine(a0, r1);
        let r2 = m.mutate(&mut self.2);
        let ghost s2 = tree_of(*self);
        proof {
            old(m).lemma_threads_prefix(before, s1, s2, 2, acc, a1);
            assert(s2.kids[2] == tree_of(self.2));
        }
        let a2 = m.combine(a1, r2);
        a2
    }
}

impl<T0: Typed, T1: Typed, T2: Typed, T3: Typed> Typed for (T0, T1, T2, T3) {
    open spec fn key() -> Sort {
        Sort { name: Name::Tuple, args: seq![T0::key(), T1::key(), T2::key(), T3::key()] }
    }

    open spec fn kids(&self) -> Seq<Tree> {
        seq![tree_of(self.0), tree_of(self.1), tree_of(self.2), tree_of(self.3)]
    }
}

impl<T0: Term, T1: Term, T2: Term, T3: Term> Term for (T0, T1, T2, T3) {
    fn map_one_transform<F, P>(self, f: &mut EverywhereBut<F, P>) -> (r: Self) where
        F: TransformForAll,
        P: GenericQuery<bool>,
     {
        let ghost before = tree_of(self);
        assert(before.kids[0] == tree_of(self.0));
        assert(before.kids[1] == tree_of(self.1));
        assert(before.kids[2] == tree_of(self.2));
        assert(before.kids[3] == tree_of(self.3));
        let (t0, t1, t2, t3) = self;
        let r0 = f.transform(t0);
        let r1 = f.transform(t1);
        let r2 = f.transform(t2);
        let r3 = f.transform(t3);
        (r0, r1, r2, r3)
    }

    fn map_one_query<Q, R, F>(&self, q: &mut Everything<Q, R, F>, acc: R) -> (out: R) where
        Q: GenericQuery<R>,
        F: FnMut(R, R) -> R,
     {
        let ghost tree = tree_of(*self);
        proof {
            old(q).lemma_feeds_prefix(tree, 4, 1, acc);
            old(q).lemma_feeds_prefix(tree, 4, 2, acc);
            old(q).lemma_feeds_prefix(tree, 4, 3, acc);
        }
        let r0 = q.query(&self.0);
        let a0 = q.combine(acc, r0);
        assert(old(q).folds(tree, 0, acc, acc) && old(q).collects(tree.kids[0], r0) && call_ensures(
            old(q).fold,
            (acc, r0),
            a0,
        ));
        let r1 = q.query(&self.1);
        let a1 = q.combine(a0, r1);
        assert(old(q).folds(tree, 1, acc, a0) && old(q).collects(tree.kids[1], r1) && call_ensures(
            old(q).fold,
            (a0, r1),
            a1,
        ));
        let r2 = q.query(&self.2);
        let a2 = q.combine(a1, r2);
        assert(old(q).folds(tree, 2, acc, a1) && old(q).collects(tree.kids[2], r2) && call_ensures(
            old(q).fold,
            (a1, r2),
            a2,
        ));
        let r3 = q.query(&self.3);
        let a3 = q.combine(a2, r3);
        assert(old(q).folds(tree, 3, acc, a2) && old(q).collects(tree.kids[3], r3) && call_ensures(
            old(q).fold,
            (a2, r3),
            a3,
        ));
        a3
    }

    fn map_one_mutation<M, R, F>(&mut self, m: &mut MutateEverything<M, R, F>, acc: R) -> (out:
        R) where M: MutateForAll<R>, F: FnMut(R, R) -> R {
        let ghost before = tree_of(*self);
        assert(before.kids[0] == tree_of(self.0));
        assert(before.kids[1] == tree_of(self.1));
        assert(before.kids[2] == tree_of(self.2));
        assert(before.kids[3] == tree_of(self.3));
        let r0 = m.mutate(&mut self.0);
        let ghost s0 = tree_of(*self);
        proof {
            old(m).lemma_threads_prefix(before, before, s0, 0, acc, acc);
            assert(s0.kids[0] == tree_of(self.0));
        }
        let a0 = m.combine(acc, r0);
        let r1 = m.mutate(&mut self.1);
        let ghost s1 = tree_of(*self);
        proof {
            old(m).lemma_threads_prefix(before, s0, s1, 1, acc, a0);
            assert(s1.kids[1] == tree_of(self.1));
        }
        let a1 = m.combine(a0, r1);
        let r2 = m.mutate(&mut self.2);
        let ghost s2 = tree_of(*self);
        proof {
            old(m).lemma_threads_prefix(before, s1, s2, 2, acc, a1);
            assert(s2.kids[2] == tree_of(self.2));
        }
        let a2 = m.combine(a1, r2);
        let r3 = m.mutate(&mut self.3);
        let ghost s3 = tree_of(*self);
        proof {
            old(m).lemma_threads_prefix(before, s2, s3, 3, acc, a2);
            assert(s3.kids[3] == tree_of(self.3));
        }
        let a3 = m.combine(a2, r3);
        a3
    }
}

impl<T0: Typed, T1: Typed, T2: Typed, T3: Typed, T4: Typed> Typed for (T0, T1, T2, T3, T4) {
    open spec fn key() -> Sort {
        Sort { name: Name::Tuple, args: seq![T0::key(), T1::key(), T2::key(), T3::key(), T4::key()] }
    }

    open spec fn kids(&self) -> Seq<Tree> {
        seq![tree_of(self.0), tree_of(self.1), tree_of(self.2), tree_of(self.3), tree_of(self.4)]
    }
}

impl<T0: Term, T1: Term, T2: Term, T3: Term, T4: Term> Term for (T0, T1, T2, T3, T4) {
    fn map_one_transform<F, P>(self, f: &mut EverywhereBut<F, P>) -> (r: Self) where
        F: TransformForAll,
        P: GenericQuery<bool>,
     {
        let ghost before = tree_of(self);
        assert(before.kids[0] == tree_of(self.0));
        assert(before.kids[1] == tree_of(self.1));
        assert(before.kids[2] == tree_of(self.2));
        assert(before.kids[3] == tree_of(self.3));
        assert(before.kids[4] == tree_of(self.4));
        let (t0, t1, t2, t3, t4) = self;
        let r0 = f.transform(t0);
        let r1 = f.transform(t1);
        let r2 = f.transform(t2);
        let r3 = f.transform(t3);
        let r4 = f.transform(t4);
        (r0, r1, r2, r3, r4)
    }

    fn map_one_query<Q, R, F>(&self, q: &mut Everything<Q, R, F>, acc: R) -> (out: R) where
        Q: GenericQuery<R>,
        F: FnMut(R, R) -> R,
     {
        let ghost tree = tree_of(*self);
        proof {
            old(q).lemma_feeds_prefix(tree, 5, 1, acc);
            old(q).lemma_feeds_prefix(tree, 5, 2, acc);
            old(q).lemma_feeds_prefix(tree, 5, 3, acc);
            old(q).lemma_feeds_prefix(tree, 5, 4, acc);
        }
        let r0 = q.query(&self.0);
        let a0 = q.combine(acc, r0);
        assert(old(q).folds(tree, 0, acc, acc) && old(q).collects(tree.kids[0], r0) && call_ensures(
            old(q).fold,
            (acc, r0),
            a0,
        ));
        let r1 = q.query(&self.1);
        let a1 = q.combine(a0, r1);
        assert(old(q).folds(tree, 1, acc, a0) && old(q).collects(tree.kids[1], r1) && call_ensures(
            old(q).fold,
            (a0, r1),
            a1,
        ));
        let r2 = q.query(&self.2);
        let a2 = q.combine(a1, r2);
        assert(old(q).folds(tree, 2, acc, a1) && old(q).collects(tree.kids[2], r2) && call_ensures(
            old(q).fold,
            (a1, r2),
            a2,
        ));
        let r3 = q.query(&self.3);
        let a3 = q.combine(a2, r3);
        assert(old(q).folds(tree, 3, acc, a2) && old(q).collects(tree.kids[3], r3) && call_ensures(
            old(q).fold,
            (a2, r3),
            a3,
        ));
        let r4 = q.query(&self.4);
        let a4 = q.combine(a3, r4);
        assert(old(q).folds(tree, 4, acc, a3) && old(q).collects(tree.kids[4], r4) && call_ensures(
            old(q).fold,
            (a3, r4),
            a4,
        ));
        a4
    }

    fn map_one_mutation<M, R, F>(&mut self, m: &mut MutateEverything<M, R, F>, acc: R) -> (out:
        R) where M: MutateForAll<R>, F: FnMut(R, R) -> R {
        let ghost before = tree_of(*self);
        assert(before.kids[0] == tree_of(self.0));
        assert(before.kids[1] == tree_of(self.1));
        assert(before.kids[2] == tree_of(self.2));
        assert(before.kids[3] == tree_of(self.3));
        assert(before.kids[4] == tree_of(self.4));
        let r0 = m.mutate(&mut self.0);
        let ghost s0 = tree_of(*self);
        proof {
            old(m).lemma_threads_prefix(before, before, s0, 0, acc, acc);
            assert(s0.kids[0] == tree_of(self.0));
        }
        let a0 = m.combine(acc, r0);
        let r1 = m.mutate(&mut self.1);
        let ghost s1 = tree_of(*self);
        proof {
            old(m).lemma_threads_prefix(before, s0, s1, 1, acc, a0);
            assert(s1.kids[1] == tree_of(self.1));
        }
        let a1 = m.combine(a0, r1);
        let r2 = m.mutate(&mut self.2);
        let ghost s2 = tree_of(*self);
        proof {
            old(m).lemma_threads_prefix(before, s1, s2, 2, acc, a1);
            assert(s2.kids[2] == tree_of(self.2));
        }
        let a2 = m.combine(a1, r2);
        let r3 = m.mutate(&mut self.3);
        let ghost s3 = tree_of(*self);
        proof {
            old(m).lemma_threads_prefix(before, s2, s3, 3, acc, a2);
            assert(s3.kids[3] == tree_of(self.3));
        }
        let a3 = m.combine(a2, r3);
        let r4 = m.mutate(&mut self.4);
        let ghost s4 = tree_of(*self);
        proof {
            old(m).lemma_threads_prefix(before, s3, s4, 4, acc, a3);
            assert(s4.kids[4] == tree_of(self.4));
        }
        let a4 = m.combine(a3, r4);
        a4
    }
}

impl<T0: Typed, T1: Typed, T2: Typed, T3: Typed, T4: Typed, T5: Typed> Typed for (T0, T1, T2, T3, T4, T5) {
    open spec fn key() -> Sort {
        Sort { name: Name::Tuple, args: seq![T0::key(), T1::key(), T2::key(), T3::key(), T4::key(), T5::key()] }
    }

    open spec fn kids(&self) -> Seq<Tree> {
        seq![tree_of(self.0), tree_of(self.1), tree_of(self.2), tree_of(self.3), tree_of(self.4), tree_of(self.5)]
    }
}

impl<T0: Term, T1: Term, T2: Term, T3: Term, T4: Term, T5: Term> Term for (T0, T1, T2, T3, T4, T5) {
    fn map_one_transform<F, P>(self, f: &mut EverywhereBut<F, P>) -> (r: Self) where
        F: TransformForAll,
        P: GenericQuery<bool>,
     {
        let ghost before = tree_of(self);
        assert(before.kids[0] == tree_of(self.0));
        assert(before.kids[1] == tree_of(self.1));
        assert(before.kids[2] == tree_of(self.2));
        assert(before.kids[3] == tree_of(self.3));
        assert(before.kids[4] == tree_of(self.4));
        assert(before.kids[5] == tree_of(self.5));
        let (t0, t1, t2, t3, t4, t5) = self;
        let r0 = f.transform(t0);
        let r1 = f.transform(t1);
        let r2 = f.transform(t2);
        let r3 = f.transform(t3);
        let r4 = f.transform(t4);
        let r5 = f.transform(t5);
        (r0, r1, r2, r3, r4, r5)
    }

    fn map_one_query<Q, R, F>(&self, q: &mut Everything<Q, R, F>, acc: R) -> (out: R) where
        Q: GenericQuery<R>,
        F: FnMut(R, R) -> R,
     {
        let ghost tree = tree_of(*self);
        proof {
            old(q).lemma_feeds_prefix(tree, 6, 1, acc);
            old(q).lemma_feeds_prefix(tree, 6, 2, acc);
            old(q).lemma_feeds_prefix(tree, 6, 3, acc);
            old(q).lemma_feeds_prefix(tree, 6, 4, acc);
            old(q).lemma_feeds_prefix(tree, 6, 5, acc);
        }
        let r0 = q.query(&self.0);
        let a0 = q.combine(acc, r0);
        assert(old(q).folds(tree, 0, acc, acc) && old(q).collects(tree.kids[0], r0) && call_ensures(
            old(q).fold,
            (acc, r0),
            a0,
        ));
        let r1 = q.query(&self.1);
        let a1 = q.combine(a0, r1);
        assert(old(q).folds(tree, 1, acc, a0) && old(q).collects(tree.kids[1], r1) && call_ensures(
            old(q).fold,
            (a0, r1),
            a1,
        ));
        let r2 = q.query(&self.2);
        let a2 = q.combine(a1, r2);
        assert(old(q).folds(tree, 2, acc, a1) && old(q).collects(tree.kids[2], r2) && call_ensures(
            old(q).fold,
            (a1, r2),
            a2,
        ));
        let r3 = q.query(&self.3);
        let a3 = q.combine(a2, r3);
        assert(old(q).folds(tree, 3, acc, a2) && old(q).collects(tree.kids[3], r3) && call_ensures(
            old(q).fold,
            (a2, r3),
            a3,
        ));
        let r4 = q.query(&self.4);
        let a4 = q.combine(a3, r4);
        assert(old(q).folds(tree, 4, acc, a3) && old(q).collects(tree.kids[4], r4) && call_ensures(
            old(q).fold,
            (a3, r4),
            a4,
        ));
        let r5 = q.query(&self.5);
        let a5 = q.combine(a4, r5);
        assert(old(q).folds(tree, 5, acc, a4) && old(q).collects(tree.kids[5], r5) && call_ensures(
            old(q).fold,
            (a4, r5),
            a5,
        ));
        a5
    }

    fn map_one_mutation<M, R, F>(&mut self, m: &mut MutateEverything<M, R, F>, acc: R) -> (out:
        R) where M: MutateForAll<R>, F: FnMut(R, R) -> R {
        let ghost before = tree_of(*self);
        assert(before.kids[0] == tree_of(self.0));
        assert(before.kids[1] == tree_of(self.1));
        assert(before.kids[2] == tree_of(self.2));
        assert(before.kids[3] == tree_of(self.3));
        assert(before.kids[4] == tree_of(self.4));
        assert(before.kids[5] == tree_of(self.5));
        let r0 = m.mutate(&mut self.0);
        let ghost s0 = tree_of(*self);
        proof {
            old(m).lemma_threads_prefix(before, before, s0, 0, acc, acc);
            assert(s0.kids[0] == tree_of(self.0));
        }
        let a0 = m.combine(acc, r0);
        let r1 = m.mutate(&mut self.1);
        let ghost s1 = tree_of(*self);
        proof {
            old(m).lemma_threads_prefix(before, s0, s1, 1, acc, a0);
            assert(s1.kids[1] == tree_of(self.1));
        }
        let a1 = m.combine(a0, r1);
        let r2 = m.mutate(&mut self.2);
        let ghost s2 = tree_of(*self);
        proof {
            old(m).lemma_threads_prefix(before, s1, s2, 2, acc, a1);
            assert(s2.kids[2] == tree_of(self.2));
        }
        let a2 = m.combine(a1, r2);
        let r3 = m.mutate(&mut self.3);
        let ghost s3 = tree_of(*self);
        proof {
            old(m).lemma_threads_prefix(before, s2, s3, 3, acc, a2);
            assert(s3.kids[3] == tree_of(self.3));
        }
        let a3 = m.combine(a2, r3);
        let r4 = m.mutate(&mut self.4);
        let ghost s4 = tree_of(*self);
        proof {
            old(m).lemma_threads_prefix(before, s3, s4, 4, acc, a3);
            assert(s4.kids[4] == tree_of(self.4));
        }
        let a4 = m.combine(a3, r4);
        let r5 = m.mutate(&mut self.5);
        let ghost s5 = tree_of(*self);
        proof {
            old(m).lemma_threads_prefix(before, s4, s5, 5, acc, a4);
            assert(s5.kids[5] == tree_of(self.5));
        }
        let a5 = m.combine(a4, r5);
        a5
    }
}

impl<T0: Typed, T1: Typed, T2: Typed, T3: Typed, T4: Typed, T5: Typed, T6: Typed> Typed for (T0, T1, T2, T3, T4, T5, T6) {
    open spec fn key() -> Sort {
        Sort { name: Name::Tuple, args: seq![T0::key(), T1::key(), T2::key(), T3::key(), T4::key(), T5::key(), T6::key()] }
    }

    open spec fn kids(&self) -> Seq<Tree> {
        seq![tree_of(self.0), tree_of(self.1), tree_of(self.2), tree_of(self.3), tree_of(self.4), tree_of(self.5), tree_of(self.6)]
    }
}

impl<T0: Term, T1: Term, T2: Term, T3: Term, T4: Term, T5: Term, T6: Term> Term for (T0, T1, T2, T3, T4, T5, T6) {
    fn map_one_transform<F, P>(self, f: &mut EverywhereBut<F, P>) -> (r: Self) where
        F: TransformForAll,
        P: GenericQuery<bool>,
     {
        let ghost before = tree_of(self);
        assert(before.kids[0] == tree_of(self.0));
        assert(before.kids[1] == tree_of(self.1));
        assert(before.kids[2] == tree_of(self.2));
        assert(before.kids[3] == tree_of(self.3));
        assert(before.kids[4] == tree_of(self.4));
        assert(before.kids[5] == tree_of(self.5));
        assert(before.kids[6] == tree_of(self.6));
        let (t0, t1, t2, t3, t4, t5, t6) = self;
        let r0 = f.transform(t0);
        let r1 = f.transform(t1);
        let r2 = f.transform(t2);
        let r3 = f.transform(t3);
        let r4 = f.transform(t4);
        let r5 = f.transform(t5);
        let r6 = f.transform(t6);
        (r0, r1, r2, r3, r4, r5, r6)
    }

    fn map_one_query<Q, R, F>(&self, q: &mut Everything<Q, R, F>, acc: R) -> (out: R) where
        Q: GenericQuery<R>,
        F: FnMut(R, R) -> R,
     {
        let ghost tree = tree_of(*self);
        proof {
            old(q).lemma_feeds_prefix(tree, 7, 1, acc);
            old(q).lemma_feeds_prefix(tree, 7, 2, acc);
            old(q).lemma_feeds_prefix(tree, 7, 3, acc);
            old(q).lemma_feeds_prefix(tree, 7, 4, acc);
            old(q).lemma_feeds_prefix(tree, 7, 5, acc);
            old(q).lemma_feeds_prefix(tree, 7, 6, acc);
        }
        let r0 = q.query(&self.0);
        let a0 = q.combine(acc, r0);
        assert(old(q).folds(tree, 0, acc, acc) && old(q).collects(tree.kids[0], r0) && call_ensures(
            old(q).fold,
            (acc, r0),
            a0,
        ));
        let r1 = q.query(&self.1);
        let a1 = q.combine(a0, r1);
        assert(old(q).folds(tree, 1, acc, a0) && old(q).collects(tree.kids[1], r1) && call_ensures(
            old(q).fold,
            (a0, r1),
            a1,
        ));
        let r2 = q.query(&self.2);
        let a2 = q.combine(a1, r2);
        assert(old(q).folds(tree, 2, acc, a1) && old(q).collects(tree.kids[2], r2) && call_ensures(
            old(q).fold,
            (a1, r2),
            a2,
        ));
        let r3 = q.query(&self.3);
        let a3 = q.combine(a2, r3);
        assert(old(q).folds(tree, 3, acc, a2) && old(q).collects(tree.kids[3], r3) && call_ensures(
            old(q).fold,
            (a2, r3),
            a3,
        ));
        let r4 = q.query(&self.4);
        let a4 = q.combine(a3, r4);
        assert(old(q).folds(tree, 4, acc, a3) && old(q).collects(tree.kids[4], r4) && call_ensures(
            old(q).fold,
            (a3, r4),
            a4,
        ));
        let r5 = q.query(&self.5);
        let a5 = q.combine(a4, r5);
        assert(old(q).folds(tree, 5, acc, a4) && old(q).collects(tree.kids[5], r5) && call_ensures(
            old(q).fold,
            (a4, r5),
            a5,
        ));
        let r6 = q.query(&self.6);
        let a6 = q.combine(a5, r6);
        assert(old(q).folds(tree, 6, acc, a5) && old(q).collects(tree.kids[6], r6) && call_ensures(
            old(q).fold,
            (a5, r6),
            a6,
        ));
        a6
    }

    fn map_one_mutation<M, R, F>(&mut self, m: &mut MutateEverything<M, R, F>, acc: R) -> (out:
        R) where M: MutateForAll<R>, F: FnMut(R, R) -> R {
        let ghost before = tree_of(*self);
        assert(before.kids[0] == tree_of(self.0));
        assert(before.kids[1] == tree_of(self.1));
        assert(before.kids[2] == tree_of(self.2));
        assert(before.kids[3] == tree_of(self.3));
        assert(before.kids[4] == tree_of(self.4));
        assert(before.kids[5] == tree_of(self.5));
        assert(before.kids[6] == tree_of(self.6));
        let r0 = m.mutate(&mut self.0);
        let ghost s0 = tree_of(*self);
        proof {
            old(m).lemma_threads_prefix(before, before, s0, 0, acc, acc);
            assert(s0.kids[0] == tree_of(self.0));
        }
        let a0 = m.combine(acc, r0);
        let r1 = m.mutate(&mut self.1);
        let ghost s1 = tree_of(*self);
        proof {
            old(m).lemma_threads_prefix(before, s0, s1, 1, acc, a0);
            assert(s1.kids[1] == tree_of(self.1));
        }
        let a1 = m.combine(a0, r1);
        let r2 = m.mutate(&mut self.2);
        let ghost s2 = tree_of(*self);
        proof {
            old(m).lemma_threads_prefix(before, s1, s2, 2, acc, a1);
            assert(s2.kids[2] == tree_of(self.2));
        }
        let a2 = m.combine(a1, r2);
        let r3 = m.mutate(&mut self.3);
        let ghost s3 = tree_of(*self);
        proof {
            old(m).lemma_threads_prefix(before, s2, s3, 3, acc, a2);
            assert(s3.kids[3] == tree_of(self.3));
        }
        let a3 = m.combine(a2, r3);
        let r4 = m.mutate(&mut self.4);
        let ghost s4 = tree_of(*self);
        proof {
            old(m).lemma_threads_prefix(before, s3, s4, 4, acc, a3);
            assert(s4.kids[4] == tree_of(self.4));
        }
        let a4 = m.combine(a3, r4);
        let r5 = m.mutate(&mut self.5);
        let ghost s5 = tree_of(*self);
        proof {
            old(m).lemma_threads_prefix(before, s4, s5, 5, acc, a4);
            assert(s5.kids[5] == tree_of(self.5));
        }
        let a5 = m.combine(a4, r5);
        let r6 = m.mutate(&mut self.6);
        let ghost s6 = tree_of(*self);
        proof {
            old(m).lemma_threads_prefix(before, s5, s6, 6, acc, a5);
            assert(s6.kids[6] == tree_of(self.6));
        }
        let a6 = m.combine(a5, r6);
        a6
    }
}

impl<T0: Typed, T1: Typed, T2: Typed, T3: Typed, T4: Typed, T5: Typed, T6: Typed, T7: Typed> Typed for (T0, T1, T2, T3, T4, T5, T6, T7) {
    open spec fn key() -> Sort {
        Sort { name: Name::Tuple, args: seq![T0::key(), T1::key(), T2::key(), T3::key(), T4::key(), T5::key(), T6::key(), T7::key()] }
    }

    open spec fn kids(&self) -> Seq<Tree> {
        seq![tree_of(self.0), tree_of(self.1), tree_of(self.2), tree_of(self.3), tree_of(self.4), tree_of(self.5), tree_of(self.6), tree_of(self.7)]
    }
}

impl<T0: Term, T1: Term, T2: Term, T3: Term, T4: Term, T5: Term, T6: Term, T7: Term> Term for (T0, T1, T2, T3, T4, T5, T6, T7) {
    fn map_one_transform<F, P>(self, f: &mut EverywhereBut<F, P>) -> (r: Self) where
        F: TransformForAll,
        P: GenericQuery<bool>,
     {
        let ghost before = tree_of(self);
        assert(before.kids[0] == tree_of(self.0));
        assert(before.kids[1] == tree_of(self.1));
        assert(before.kids[2] == tree_of(self.2));
        assert(before.kids[3] == tree_of(self.3));
        assert(before.kids[4] == tree_of(self.4));
        assert(before.kids[5] == tree_of(self.5));
        assert(before.kids[6] == tree_of(self.6));
        assert(before.kids[7] == tree_of(self.7));
        let (t0, t1, t2, t3, t4, t5, t6, t7) = self;
        let r0 = f.transform(t0);
        let r1 = f.transform(t1);
        let r2 = f.transform(t2);
        let r3 = f.transform(t3);
        let r4 = f.transform(t4);
        let r5 = f.transform(t5);
        let r6 = f.transform(t6);
        let r7 = f.transform(t7);
        (r0, r1, r2, r3, r4, r5, r6, r7)
    }

    fn map_one_query<Q, R, F>(&self, q: &mut Everything<Q, R, F>, acc: R) -> (out: R) where
        Q: GenericQuery<R>,
        F: FnMut(R, R) -> R,
     {
        let ghost tree = tree_of(*self);
        proof {
            old(q).lemma_feeds_prefix(tree, 8, 1, acc);
            old(q).lemma_feeds_prefix(tree, 8, 2, acc);
            old(q).lemma_feeds_prefix(tree, 8, 3, acc);
            old(q).lemma_feeds_prefix(tree, 8, 4, acc);
            old(q).lemma_feeds_prefix(tree, 8, 5, acc);
            old(q).lemma_feeds_prefix(tree, 8, 6, acc);
            old(q).lemma_feeds_prefix(tree, 8, 7, acc);
        }
        let r0 = q.query(&self.0);
        let a0 = q.combine(acc, r0);
        assert(old(q).folds(tree, 0, acc, acc) && old(q).collects(tree.kids[0], r0) && call_ensures(
            old(q).fold,
            (acc, r0),
            a0,
        ));
        let r1 = q.query(&self.1);
        let a1 = q.combine(a0, r1);
        assert(old(q).folds(tree, 1, acc, a0) && old(q).collects(tree.kids[1], r1) && call_ensures(
            old(q).fold,
            (a0, r1),
            a1,
        ));
        let r2 = q.query(&self.2);
        let a2 = q.combine(a1, r2);
        assert(old(q).folds(tree, 2, acc, a1) && old(q).collects(tree.kids[2], r2) && call_ensures(
            old(q).fold,
            (a1, r2),
            a2,
        ));
        let r3 = q.query(&self.3);
        let a3 = q.combine(a2, r3);
        assert(old(q).folds(tree, 3, acc, a2) && old(q).collects(tree.kids[3], r3) && call_ensures(
            old(q).fold,
            (a2, r3),
            a3,
        ));
        let r4 = q.query(&self.4);
        let a4 = q.combine(a3, r4);
        assert(old(q).folds(tree, 4, acc, a3) && old(q).collects(tree.kids[4], r4) && call_ensures(
            old(q).fold,
            (a3, r4),
            a4,
        ));
        let r5 = q.query(&self.5);
        let a5 = q.combine(a4, r5);
        assert(old(q).folds(tree, 5, acc, a4) && old(q).collects(tree.kids[5], r5) && call_ensures(
            old(q).fold,
            (a4, r5),
            a5,
        ));
        let r6 = q.query(&self.6);
        let a6 = q.combine(a5, r6);
        assert(old(q).folds(tree, 6, acc, a5) && old(q).collects(tree.kids[6], r6) && call_ensures(
            old(q).fold,
            (a5, r6),
            a6,
        ));
        let r7 = q.query(&self.7);
        let a7 = q.combine(a6, r7);
        assert(old(q).folds(tree, 7, acc, a6) && old(q).collects(tree.kids[7], r7) && call_ensures(
            old(q).fold,
            (a6, r7),
            a7,
        ));
        a7
    }

    fn map_one_mutation<M, R, F>(&mut self, m: &mut MutateEverything<M, R, F>, acc: R) -> (out:
        R) where M: MutateForAll<R>, F: FnMut(R, R) -> R {
        let ghost before = tree_of(*self);
        assert(before.kids[0] == tree_of(self.0));
        assert(before.kids[1] == tree_of(self.1));
        assert(before.kids[2] == tree_of(self.2));
        assert(before.kids[3] == tree_of(self.3));
        assert(before.kids[4] == tree_of(self.4));
        assert(before.kids[5] == tree_of(self.5));
        assert(before.kids[6] == tree_of(self.6));
        assert(before.kids[7] == tree_of(self.7));
        let r0 = m.mutate(&mut self.0);
        let ghost s0 = tree_of(*self);
        proof {
            old(m).lemma_threads_prefix(before, before, s0, 0, acc, acc);
            assert(s0.kids[0] == tree_of(self.0));
        }
        let a0 = m.combine(acc, r0);
        let r1 = m.mutate(&mut self.1);
        let ghost s1 = tree_of(*self);
        proof {
            old(m).lemma_threads_prefix(before, s0, s1, 1, acc, a0);
            assert(s1.kids[1] == tree_of(self.1));
        }
        let a1 = m.combine(a0, r1);
        let r2 = m.mutate(&mut self.2);
        let ghost s2 = tree_of(*self);
        proof {
            old(m).lemma_threads_prefix(before, s1, s2, 2, acc, a1);
            assert(s2.kids[2] == tree_of(self.2));
        }
        let a2 = m.combine(a1, r2);
        let r3 = m.mutate(&mut self.3);
        let ghost s3 = tree_of(*self);
        proof {
            old(m).lemma_threads_prefix(before, s2, s3, 3, acc, a2);
            assert(s3.kids[3] == tree_of(self.3));
        }
        let a3 = m.combine(a2, r3);
        let r4 = m.mutate(&mut self.4);
        let ghost s4 = tree_of(*self);
        proof {
            old(m).lemma_threads_prefix(before, s3, s4, 4, acc, a3);
            assert(s4.kids[4] == tree_of(self.4));
        }
        let a4 = m.combine(a3, r4);
        let r5 = m.mutate(&mut self.5);
        let ghost s5 = tree_of(*self);
        proof {
            old(m).lemma_threads_prefix(before, s4, s5, 5, acc, a4);
            assert(s5.kids[5] == tree_of(self.5));
        }
        let a5 = m.combine(a4, r5);
        let r6 = m.mutate(&mut self.6);
        let ghost s6 = tree_of(*self);
        proof {
            old(m).lemma_threads_prefix(before, s5, s6, 6, acc, a5);
            assert(s6.kids[6] == tree_of(self.6));
        }
        let a6 = m.combine(a5, r6);
        let r7 = m.mutate(&mut self.7);
        let ghost s7 = tree_of(*self);
        proof {
            old(m).lemma_threads_prefix(before, s6, s7, 7, acc, a6);
            assert(s7.kids[7] == tree_of(self.7));
        }
        let a7 = m.combine(a6, r7);
        a7
    }
}

impl<T0: Typed, T1: Typed, T2: Typed, T3: Typed, T4: Typed, T5: Typed, T6: Typed, T7: Typed, T8: Typed> Typed for (T0, T1, T2, T3, T4, T5, T6, T7, T8) {
    open spec fn key() -> Sort {
        Sort { name: Name::Tuple, args: seq![T0::key(), T1::key(), T2::key(), T3::key(), T4::key(), T5::key(), T6::key(), T7::key(), T8::key()] }
    }

    open spec fn kids(&self) -> Seq<Tree> {
        seq![tree_of(self.0), tree_of(self.1), tree_of(self.2), tree_of(self.3), tree_of(self.4), tree_of(self.5), tree_of(self.6), tree_of(self.7), tree_of(self.8)]
    }
}

impl<T0: Term, T1: Term, T2: Term, T3: Term, T4: Term, T5: Term, T6: Term, T7: Term, T8: Term> Term for (T0, T1, T2, T3, T4, T5, T6, T7, T8) {
    fn map_one_transform<F, P>(self, f: &mut EverywhereBut<F, P>) -> (r: Self) where
        F: TransformForAll,
        P: GenericQuery<bool>,
     {
        let ghost before = tree_of(self);
        assert(before.kids[0] == tree_of(self.0));
        assert(before.kids[1] == tree_of(self.1));
        assert(before.kids[2] == tree_of(self.2));
        assert(before.kids[3] == tree_of(self.3));
        assert(before.kids[4] == tree_of(self.4));
        assert(before.kids[5] == tree_of(self.5));
        assert(before.kids[6] == tree_of(self.6));
        assert(before.kids[7] == tree_of(self.7));
        assert(before.kids[8] == tree_of(self.8));
        let (t0, t1, t2, t3, t4, t5, t6, t7, t8) = self;
        let r0 = f.transform(t0);
        let r1 = f.transform(t1);
        let r2 = f.transform(t2);
        let r3 = f.transform(t3);
        let r4 = f.transform(t4);
        let r5 = f.transform(t5);
        let r6 = f.transform(t6);
        let r7 = f.transform(t7);
        let r8 = f.transform(t8);
        (r0, r1, r2, r3, r4, r5, r6, r7, r8)
    }

    fn map_one_query<Q, R, F>(&self, q: &mut Everything<Q, R, F>, acc: R) -> (out: R) where
        Q: GenericQuery<R>,
        F: FnMut(R, R) -> R,
     {
        let ghost tree = tree_of(*self);
        proof {
            old(q).lemma_feeds_prefix(tree, 9, 1, acc);
            old(q).lemma_feeds_prefix(tree, 9, 2, acc);
            old(q).lemma_feeds_prefix(tree, 9, 3, acc);
            old(q).lemma_feeds_prefix(tree, 9, 4, acc);
            old(q).lemma_feeds_prefix(tree, 9, 5, acc);
            old(q).lemma_feeds_prefix(tree, 9, 6, acc);
            old(q).lemma_feeds_prefix(tree, 9, 7, acc);
            old(q).lemma_feeds_prefix(tree, 9, 8, acc);
        }
        let r0 = q.query(&self.0);
        let a0 = q.combine(acc, r0);
        assert(old(q).folds(tree, 0, acc, acc) && old(q).collects(tree.kids[0], r0) && call_ensures(
            old(q).fold,
            (acc, r0),
            a0,
        ));
        let r1 = q.query(&self.1);
        let a1 = q.combine(a0, r1);
        assert(old(q).folds(tree, 1, acc, a0) && old(q).collects(tree.kids[1], r1) && call_ensures(
            old(q).fold,
            (a0, r1),
            a1,
        ));
        let r2 = q.query(&self.2);
        let a2 = q.combine(a1, r2);
        assert(old(q).folds(tree, 2, acc, a1) && old(q).collects(tree.kids[2], r2) && call_ensures(
            old(q).fold,
            (a1, r2),
            a2,
        ));
        let r3 = q.query(&self.3);
        let a3 = q.combine(a2, r3);
        assert(old(q).folds(tree, 3, acc, a2) && old(q).collects(tree.kids[3], r3) && call_ensures(
            old(q).fold,
            (a2, r3),
            a3,
        ));
        let r4 = q.query(&self.4);
        let a4 = q.combine(a3, r4);
        assert(old(q).folds(tree, 4, acc, a3) && old(q).collects(tree.kids[4], r4) && call_ensures(
            old(q).fold,
            (a3, r4),
            a4,
        ));
        let r5 = q.query(&self.5);
        let a5 = q.combine(a4, r5);
        assert(old(q).folds(tree, 5, acc, a4) && old(q).collects(tree.kids[5], r5) && call_ensures(
            old(q).fold,
            (a4, r5),
            a5,
        ));
        let r6 = q.query(&self.6);
        let a6 = q.combine(a5, r6);
        assert(old(q).folds(tree, 6, acc, a5) && old(q).collects(tree.kids[6], r6) && call_ensures(
            old(q).fold,
            (a5, r6),
            a6,
        ));
        let r7 = q.query(&self.7);
        let a7 = q.combine(a6, r7);
        assert(old(q).folds(tree, 7, acc, a6) && old(q).collects(tree.kids[7], r7) && call_ensures(
            old(q).fold,
            (a6, r7),
            a7,
        ));
        let r8 = q.query(&self.8);
        let a8 = q.combine(a7, r8);
        assert(old(q).folds(tree, 8, acc, a7) && old(q).collects(tree.kids[8], r8) && call_ensures(
            old(q).fold,
            (a7, r8),
            a8,
        ));
        a8
    }

    fn map_one_mutation<M, R, F>(&mut self, m: &mut MutateEverything<M, R, F>, acc: R) -> (out:
        R) where M: MutateForAll<R>, F: FnMut(R, R) -> R {
        let ghost before = tree_of(*self);
        assert(before.kids[0] == tree_of(self.0));
        assert(before.kids[1] == tree_of(self.1));
        assert(before.kids[2] == tree_of(self.2));
        assert(before.kids[3] == tree_of(self.3));
        assert(before.kids[4] == tree_of(self.4));
        assert(before.kids[5] == tree_of(self.5));
        assert(before.kids[6] == tree_of(self.6));
        assert(before.kids[7] == tree_of(self.7));
        assert(before.kids[8] == tree_of(self.8));
        let r0 = m.mutate(&mut self.0);
        let ghost s0 = tree_of(*self);
        proof {
            old(m).lemma_threads_prefix(before, before, s0, 0, acc, acc);
            assert(s0.kids[0] == tree_of(self.0));
        }
        let a0 = m.combine(acc, r0);
        let r1 = m.mutate(&mut self.1);
        let ghost s1 = tree_of(*self);
        proof {
            old(m).lemma_threads_prefix(before, s0, s1, 1, acc, a0);
            assert(s1.kids[1] == tree_of(self.1));
        }
        let a1 = m.combine(a0, r1);
        let r2 = m.mutate(&mut self.2);
        let ghost s2 = tree_of(*self);
        proof {
            old(m).lemma_threads_prefix(before, s1, s2, 2, acc, a1);
            assert(s2.kids[2] == tree_of(self.2));
        }
        let a2 = m.combine(a1, r2);
        let r3 = m.mutate(&mut self.3);
        let ghost s3 = tree_of(*self);
        proof {
            old(m).lemma_threads_prefix(before, s2, s3, 3, acc, a2);
            assert(s3.kids[3] == tree_of(self.3));
        }
        let a3 = m.combine(a2, r3);
        let r4 = m.mutate(&mut self.4);
        let ghost s4 = tree_of(*self);
        proof {
            old(m).lemma_threads_prefix(before, s3, s4, 4, acc, a3);
            assert(s4.kids[4] == tree_of(self.4));
        }
        let a4 = m.combine(a3, r4);
        let r5 = m.mutate(&mut self.5);
        let ghost s5 = tree_of(*self);
        proof {
            old(m).lemma_threads_prefix(before, s4, s5, 5, acc, a4);
            assert(s5.kids[5] == tree_of(self.5));
        }
        let a5 = m.combine(a4, r5);
        let r6 = m.mutate(&mut self.6);
        let ghost s6 = tree_of(*self);
        proof {
            old(m).lemma_threads_prefix(before, s5, s6, 6, acc, a5);
            assert(s6.kids[6] == tree_of(self.6));
        }
        let a6 = m.combine(a5, r6);
        let r7 = m.mutate(&mut self.7);
        let ghost s7 = tree_of(*self);
        proof {
            old(m).lemma_threads_prefix(before, s6, s7, 7, acc, a6);
            assert(s7.kids[7] == tree_of(self.7));
        }
        let a7 = m.combine(a6, r7);
        let r8 = m.mutate(&mut self.8);
        let ghost s8 = tree_of(*self);
        proof {
            old(m).lemma_threads_prefix(before, s7, s8, 8, acc, a7);
            assert(s8.kids[8] == tree_of(self.8));
        }
        let a8 = m.combine(a7, r8);
        a8
    }
}

impl<T0: Typed, T1: Typed, T2: Typed, T3: Typed, T4: Typed, T5: Typed, T6: Typed, T7: Typed, T8: Typed, T9: Typed> Typed for (T0, T1, T2, T3, T4, T5, T6, T7, T8, T9) {
    open spec fn key() -> Sort {
        Sort { name: Name::Tuple, args: seq![T0::key(), T1::key(), T2::key(), T3::key(), T4::key(), T5::key(), T6::key(), T7::key(), T8::key(), T9::key()] }
    }

    open spec fn kids(&self) -> Seq<Tree> {
        seq![tree_of(self.0), tree_of(self.1), tree_of(self.2), tree_of(self.3), tree_of(self.4), tree_of(self.5), tree_of(self.6), tree_of(self.7), tree_of(self.8), tree_of(self.9)]
    }
}

impl<T0: Term, T1: Term, T2: Term, T3: Term, T4: Term, T5: Term, T6: Term, T7: Term, T8: Term, T9: Term> Term for (T0, T1, T2, T3, T4, T5, T6, T7, T8, T9) {
    fn map_one_transform<F, P>(self, f: &mut EverywhereBut<F, P>) -> (r: Self) where
        F: TransformForAll,
        P: GenericQuery<bool>,
     {
        let ghost before = tree_of(self);
        assert(before.kids[0] == tree_of(self.0));
        assert(before.kids[1] == tree_of(self.1));
        assert(before.kids[2] == tree_of(self.2));
        assert(before.kids[3] == tree_of(self.3));
        assert(before.kids[4] == tree_of(self.4));
        assert(before.kids[5] == tree_of(self.5));
        assert(before.kids[6] == tree_of(self.6));
        assert(before.kids[7] == tree_of(self.7));
        assert(before.kids[8] == tree_of(self.8));
        assert(before.kids[9] == tree_of(self.9));
        let (t0, t1, t2, t3, t4, t5, t6, t7, t8, t9) = self;
        let r0 = f.transform(t0);
        let r1 = f.transform(t1);
        let r2 = f.transform(t2);
        let r3 = f.transform(t3);
        let r4 = f.transform(t4);
        let r5 = f.transform(t5);
        let r6 = f.transform(t6);
        let r7 = f.transform(t7);
        let r8 = f.transform(t8);
        let r9 = f.transform(t9);
        (r0, r1, r2, r3, r4, r5, r6, r7, r8, r9)
    }

    fn map_one_query<Q, R, F>(&self, q: &mut Everything<Q, R, F>, acc: R) -> (out: R) where
        Q: GenericQuery<R>,
        F: FnMut(R, R) -> R,
     {
        let ghost tree = tree_of(*self);
        proof {
            old(q).lemma_feeds_prefix(tree, 10, 1, acc);
            old(q).lemma_feeds_prefix(tree, 10, 2, acc);
            old(q).lemma_feeds_prefix(tree, 10, 3, acc);
            old(q).lemma_feeds_prefix(tree, 10, 4, acc);
            old(q).lemma_feeds_prefix(tree, 10, 5, acc);
            old(q).lemma_feeds_prefix(tree, 10, 6, acc);
            old(q).lemma_feeds_prefix(tree, 10, 7, acc);
            old(q).lemma_feeds_prefix(tree, 10, 8, acc);
            old(q).lemma_feeds_prefix(tree, 10, 9, acc);
        }
        let r0 = q.query(&self.0);
        let a0 = q.combine(acc, r0);
        assert(old(q).folds(tree, 0, acc, acc) && old(q).collects(tree.kids[0], r0) && call_ensures(
            old(q).fold,
            (acc, r0),
            a0,
        ));
        let r1 = q.query(&self.1);
        let a1 = q.combine(a0, r1);
        assert(old(q).folds(tree, 1, acc, a0) && old(q).collects(tree.kids[1], r1) && call_ensures(
            old(q).fold,
            (a0, r1),
            a1,
        ));
        let r2 = q.query(&self.2);
        let a2 = q.combine(a1, r2);
        assert(old(q).folds(tree, 2, acc, a1) && old(q).collects(tree.kids[2], r2) && call_ensures(
            old(q).fold,
            (a1, r2),
            a2,
        ));
        let r3 = q.query(&self.3);
        let a3 = q.combine(a2, r3);
        assert(old(q).folds(tree, 3, acc, a2) && old(q).collects(tree.kids[3], r3) && call_ensures(
            old(q).fold,
            (a2, r3),
            a3,
        ));
        let r4 = q.query(&self.4);
        let a4 = q.combine(a3, r4);
        assert(old(q).folds(tree, 4, acc, a3) && old(q).collects(tree.kids[4], r4) && call_ensures(
            old(q).fold,
            (a3, r4),
            a4,
        ));
        let r5 = q.query(&self.5);
        let a5 = q.combine(a4, r5);
        assert(old(q).folds(tree, 5, acc, a4) && old(q).collects(tree.kids[5], r5) && call_ensures(
            old(q).fold,
            (a4, r5),
            a5,
        ));
        let r6 = q.query(&self.6);
        let a6 = q.combine(a5, r6);
        assert(old(q).folds(tree, 6, acc, a5) && old(q).collects(tree.kids[6], r6) && call_ensures(
            old(q).fold,
            (a5, r6),
            a6,
        ));
        let r7 = q.query(&self.7);
        let a7 = q.combine(a6, r7);
        assert(old(q).folds(tree, 7, acc, a6) && old(q).collects(tree.kids[7], r7) && call_ensures(
            old(q).fold,
            (a6, r7),
            a7,
        ));
        let r8 = q.query(&self.8);
        let a8 = q.combine(a7, r8);
        assert(old(q).folds(tree, 8, acc, a7) && old(q).collects(tree.kids[8], r8) && call_ensures(
            old(q).fold,
            (a7, r8),
            a8,
        ));
        let r9 = q.query(&self.9);
        let a9 = q.combine(a8, r9);
        assert(old(q).folds(tree, 9, acc, a8) && old(q).collects(tree.kids[9], r9) && call_ensures(
            old(q).fold,
            (a8, r9),
            a9,
        ));
        a9
    }

    fn map_one_mutation<M, R, F>(&mut self, m: &mut MutateEverything<M, R, F>, acc: R) -> (out:
        R) where M: MutateForAll<R>, F: FnMut(R, R) -> R {
        let ghost before = tree_of(*self);
        assert(before.kids[0] == tree_of(self.0));
        assert(before.kids[1] == tree_of(self.1));
        assert(before.kids[2] == tree_of(self.2));
        assert(before.kids[3] == tree_of(self.3));
        assert(before.kids[4] == tree_of(self.4));
        assert(before.kids[5] == tree_of(self.5));
        assert(before.kids[6] == tree_of(self.6));
        assert(before.kids[7] == tree_of(self.7));
        assert(before.kids[8] == tree_of(self.8));
        assert(before.kids[9] == tree_of(self.9));
        let r0 = m.mutate(&mut self.0);
        let ghost s0 = tree_of(*self);
        proof {
            old(m).lemma_threads_prefix(before, before, s0, 0, acc, acc);
            assert(s0.kids[0] == tree_of(self.0));
        }
        let a0 = m.combine(acc, r0);
        let r1 = m.mutate(&mut self.1);
        let ghost s1 = tree_of(*self);
        proof {
            old(m).lemma_threads_prefix(before, s0, s1, 1, acc, a0);
            assert(s1.kids[1] == tree_of(self.1));
        }
        let a1 = m.combine(a0, r1);
        let r2 = m.mutate(&mut self.2);
        let ghost s2 = tree_of(*self);
        proof {
            old(m).lemma_threads_prefix(before, s1, s2, 2, acc, a1);
            assert(s2.kids[2] == tree_of(self.2));
        }
        let a2 = m.combine(a1, r2);
        let r3 = m.mutate(&mut self.3);
        let ghost s3 = tree_of(*self);
        proof {
            old(m).lemma_threads_prefix(before, s2, s3, 3, acc, a2);
            assert(s3.kids[3] == tree_of(self.3));
        }
        let a3 = m.combine(a2, r3);
        let r4 = m.mutate(&mut self.4);
        let ghost s4 = tree_of(*self);
        proof {
            old(m).lemma_threads_prefix(before, s3, s4, 4, acc, a3);
            assert(s4.kids[4] == tree_of(self.4));
        }
        let a4 = m.combine(a3, r4);
        let r5 = m.mutate(&mut self.5);
        let ghost s5 = tree_of(*self);
        proof {
            old(m).lemma_threads_prefix(before, s4, s5, 5, acc, a4);
            assert(s5.kids[5] == tree_of(self.5));
        }
        let a5 = m.combine(a4, r5);
        let r6 = m.mutate(&mut self.6);
        let ghost s6 = tree_of(*self);
        proof {
            old(m).lemma_threads_prefix(before, s5, s6, 6, acc, a5);
            assert(s6.kids[6] == tree_of(self.6));
        }
        let a6 = m.combine(a5, r6);
        let r7 = m.mutate(&mut self.7);
        let ghost s7 = tree_of(*self);
        proof {
            old(m).lemma_threads_prefix(before, s6, s7, 7, acc, a6);
            assert(s7.kids[7] == tree_of(self.7));
        }
        let a7 = m.combine(a6, r7);
        let r8 = m.mutate(&mut self.8);
        let ghost s8 = tree_of(*self);
        proof {
            old(m).lemma_threads_prefix(before, s7, s8, 8, acc, a7);
            assert(s8.kids[8] == tree_of(self.8));
        }
        let a8 = m.combine(a7, r8);
        let r9 = m.mutate(&mut self.9);
        let ghost s9 = tree_of(*self);
        proof {
            old(m).lemma_threads_prefix(before, s8, s9, 9, acc, a8);
            assert(s9.kids[9] == tree_of(self.9));
        }
        let a9 = m.combine(a8, r9);
        a9
    }
}

impl<T0: Typed, T1: Typed, T2: Typed, T3: Typed, T4: Typed, T5: Typed, T6: Typed, T7: Typed, T8: Typed, T9: Typed, T10: Typed> Typed for (T0, T1, T2, T3, T4, T5, T6, T7, T8, T9, T10) {
    open spec fn key() -> Sort {
        Sort { name: Name::Tuple, args: seq![T0::key(), T1::key(), T2::key(), T3::key(), T4::key(), T5::key(), T6::key(), T7::key(), T8::key(), T9::key(), T10::key()] }
    }

    open spec fn kids(&self) -> Seq<Tree> {
        seq![tree_of(self.0), tree_of(self.1), tree_of(self.2), tree_of(self.3), tree_of(self.4), tree_of(self.5), tree_of(self.6), tree_of(self.7), tree_of(self.8), tree_of(self.9), tree_of(self.10)]
    }
}

impl<T0: Term, T1: Term, T2: Term, T3: Term, T4: Term, T5: Term, T6: Term, T7: Term, T8: Term, T9: Term, T10: Term> Term for (T0, T1, T2, T3, T4, T5, T6, T7, T8, T9, T10) {
    fn map_one_transform<F, P>(self, f: &mut EverywhereBut<F, P>) -> (r: Self) where
        F: TransformForAll,
        P: GenericQuery<bool>,
     {
        let ghost before = tree_of(self);
        assert(before.kids[0] == tree_of(self.0));
        assert(before.kids[1] == tree_of(self.1));
        assert(before.kids[2] == tree_of(self.2));
        assert(before.kids[3] == tree_of(self.3));
        assert(before.kids[4] == tree_of(self.4));
        assert(before.kids[5] == tree_of(self.5));
        assert(before.kids[6] == tree_of(self.6));
        assert(before.kids[7] == tree_of(self.7));
        assert(before.kids[8] == tree_of(self.8));
        assert(before.kids[9] == tree_of(self.9));
        assert(before.kids[10] == tree_of(self.10));
        let (t0, t1, t2, t3, t4, t5, t6, t7, t8, t9, t10) = self;
        let r0 = f.transform(t0);
        let r1 = f.transform(t1);
        let r2 = f.transform(t2);
        let r3 = f.transform(t3);
        let r4 = f.transform(t4);
        let r5 = f.transform(t5);
        let r6 = f.transform(t6);
        let r7 = f.transform(t7);
        let r8 = f.transform(t8);
        let r9 = f.transform(t9);
        let r10 = f.transform(t10);
        (r0, r1, r2, r3, r4, r5, r6, r7, r8, r9, r10)
    }

    fn map_one_query<Q, R, F>(&self, q: &mut Everything<Q, R, F>, acc: R) -> (out: R) where
        Q: GenericQuery<R>,
        F: FnMut(R, R) -> R,
     {
        let ghost tree = tree_of(*self);
        proof {
            old(q).lemma_feeds_prefix(tree, 11, 1, acc);
            old(q).lemma_feeds_prefix(tree, 11, 2, acc);
            old(q).lemma_feeds_prefix(tree, 11, 3, acc);
            old(q).lemma_feeds_prefix(tree, 11, 4, acc);
            old(q).lemma_feeds_prefix(tree, 11, 5, acc);
            old(q).lemma_feeds_prefix(tree, 11, 6, acc);
            old(q).lemma_feeds_prefix(tree, 11, 7, acc);
            old(q).lemma_feeds_prefix(tree, 11, 8, acc);
            old(q).lemma_feeds_prefix(tree, 11, 9, acc);
            old(q).lemma_feeds_prefix(tree, 11, 10, acc);
        }
        let r0 = q.query(&self.0);
        let a0 = q.combine(acc, r0);
        assert(old(q).folds(tree, 0, acc, acc) && old(q).collects(tree.kids[0], r0) && call_ensures(
            old(q).fold,
            (acc, r0),
            a0,
        ));
        let r1 = q.query(&self.1);
        let a1 = q.combine(a0, r1);
        assert(old(q).folds(tree, 1, acc, a0) && old(q).collects(tree.kids[1], r1) && call_ensures(
            old(q).fold,
            (a0, r1),
            a1,
        ));
        let r2 = q.query(&self.2);
        let a2 = q.combine(a1, r2);
        assert(old(q).folds(tree, 2, acc, a1) && old(q).collects(tree.kids[2], r2) && call_ensures(
            old(q).fold,
            (a1, r2),
            a2,
        ));
        let r3 = q.query(&self.3);
        let a3 = q.combine(a2, r3);
        assert(old(q).folds(tree, 3, acc, a2) && old(q).collects(tree.kids[3], r3) && call_ensures(
            old(q).fold,
            (a2, r3),
            a3,
        ));
        let r4 = q.query(&self.4);
        let a4 = q.combine(a3, r4);
        assert(old(q).folds(tree, 4, acc, a3) && old(q).collects(tree.kids[4], r4) && call_ensures(
            old(q).fold,
            (a3, r4),
            a4,
        ));
        let r5 = q.query(&self.5);
        let a5 = q.combine(a4, r5);
        assert(old(q).folds(tree, 5, acc, a4) && old(q).collects(tree.kids[5], r5) && call_ensures(
            old(q).fold,
            (a4, r5),
            a5,
        ));
        let r6 = q.query(&self.6);
        let a6 = q.combine(a5, r6);
        assert(old(q).folds(tree, 6, acc, a5) && old(q).collects(tree.kids[6], r6) && call_ensures(
            old(q).fold,
            (a5, r6),
            a6,
        ));
        let r7 = q.query(&self.7);
        let a7 = q.combine(a6, r7);
        assert(old(q).folds(tree, 7, acc, a6) && old(q).collects(tree.kids[7], r7) && call_ensures(
            old(q).fold,
            (a6, r7),
            a7,
        ));
        let r8 = q.query(&self.8);
        let a8 = q.combine(a7, r8);
        assert(old(q).folds(tree, 8, acc, a7) && old(q).collects(tree.kids[8], r8) && call_ensures(
            old(q).fold,
            (a7, r8),
            a8,
        ));
        let r9 = q.query(&self.9);
        let a9 = q.combine(a8, r9);
        assert(old(q).folds(tree, 9, acc, a8) && old(q).collects(tree.kids[9], r9) && call_ensures(
            old(q).fold,
            (a8, r9),
            a9,
        ));
        let r10 = q.query(&self.10);
        let a10 = q.combine(a9, r10);
        assert(old(q).folds(tree, 10, acc, a9) && old(q).collects(tree.kids[10], r10) && call_ensures(
            old(q).fold,
            (a9, r10),
            a10,
        ));
        a10
    }

    fn map_one_mutation<M, R, F>(&mut self, m: &mut MutateEverything<M, R, F>, acc: R) -> (out:
        R) where M: MutateForAll<R>, F: FnMut(R, R) -> R {
        let ghost before = tree_of(*self);
        assert(before.kids[0] == tree_of(self.0));
        assert(before.kids[1] == tree_of(self.1));
        assert(before.kids[2] == tree_of(self.2));
        assert(before.kids[3] == tree_of(self.3));
        assert(before.kids[4] == tree_of(self.4));
        assert(before.kids[5] == tree_of(self.5));
        assert(before.kids[6] == tree_of(self.6));
        assert(before.kids[7] == tree_of(self.7));
        assert(before.kids[8] == tree_of(self.8));
        assert(before.kids[9] == tree_of(self.9));
        assert(before.kids[10] == tree_of(self.10));
        let r0 = m.mutate(&mut self.0);
        let ghost s0 = tree_of(*self);
        proof {
            old(m).lemma_threads_prefix(before, before, s0, 0, acc, acc);
            assert(s0.kids[0] == tree_of(self.0));
        }
        let a0 = m.combine(acc, r0);
        let r1 = m.mutate(&mut self.1);
        let ghost s1 = tree_of(*self);
        proof {
            old(m).lemma_threads_prefix(before, s0, s1, 1, acc, a0);
            assert(s1.kids[1] == tree_of(self.1));
        }
        let a1 = m.combine(a0, r1);
        let r2 = m.mutate(&mut self.2);
        let ghost s2 = tree_of(*self);
        proof {
            old(m).lemma_threads_prefix(before, s1, s2, 2, acc, a1);
            assert(s2.kids[2] == tree_of(self.2));
        }
        let a2 = m.combine(a1, r2);
        let r3 = m.mutate(&mut self.3);
        let ghost s3 = tree_of(*self);
        proof {
            old(m).lemma_threads_prefix(before, s2, s3, 3, acc, a2);
            assert(s3.kids[3] == tree_of(self.3));
        }
        let a3 = m.combine(a2, r3);
        let r4 = m.mutate(&mut self.4);
        let ghost s4 = tree_of(*self);
        proof {
            old(m).lemma_threads_prefix(before, s3, s4, 4, acc, a3);
            assert(s4.kids[4] == tree_of(self.4));
        }
        let a4 = m.combine(a3, r4);
        let r5 = m.mutate(&mut self.5);
        let ghost s5 = tree_of(*self);
        proof {
            old(m).lemma_threads_prefix(before, s4, s5, 5, acc, a4);
            assert(s5.kids[5] == tree_of(self.5));
        }
        let a5 = m.combine(a4, r5);
        let r6 = m.mutate(&mut self.6);
        let ghost s6 = tree_of(*self);
        proof {
            old(m).lemma_threads_prefix(before, s5, s6, 6, acc, a5);
            assert(s6.kids[6] == tree_of(self.6));
        }
        let a6 = m.combine(a5, r6);
        let r7 = m.mutate(&mut self.7);
        let ghost s7 = tree_of(*self);
        proof {
            old(m).lemma_threads_prefix(before, s6, s7, 7, acc, a6);
            assert(s7.kids[7] == tree_of(self.7));
        }
        let a7 = m.combine(a6, r7);
        let r8 = m.mutate(&mut self.8);
        let ghost s8 = tree_of(*self);
        proof {
            old(m).lemma_threads_prefix(before, s7, s8, 8, acc, a7);
            assert(s8.kids[8] == tree_of(self.8));
        }
        let a8 = m.combine(a7, r8);
        let r9 = m.mutate(&mut self.9);
        let ghost s9 = tree_of(*self);
        proof {
            old(m).lemma_threads_prefix(before, s8, s9, 9, acc, a8);
            assert(s9.kids[9] == tree_of(self.9));
        }
        let a9 = m.combine(a8, r9);
        let r10 = m.mutate(&mut self.10);
        let ghost s10 = tree_of(*self);
        proof {
            old(m).lemma_threads_prefix(before, s9, s10, 10, acc, a9);
            assert(s10.kids[10] == tree_of(self.10));
        }
        let a10 = m.combine(a9, r10);
        a10
    }
}

impl<T0: Typed, T1: Typed, T2: Typed, T3: Typed, T4: Typed, T5: Typed, T6: Typed, T7: Typed, T8: Typed, T9: Typed, T10: Typed, T11: Typed> Typed for (T0, T1, T2, T3, T4, T5, T6, T7, T8, T9, T10, T11) {
    open spec fn key() -> Sort {
        Sort { name: Name::Tuple, args: seq![T0::key(), T1::key(), T2::key(), T3::key(), T4::key(), T5::key(), T6::key(), T7::key(), T8::key(), T9::key(), T10::key(), T11::key()] }
    }

    open spec fn kids(&self) -> Seq<Tree> {
        seq![tree_of(self.0), tree_of(self.1), tree_of(self.2), tree_of(self.3), tree_of(self.4), tree_of(self.5), tree_of(self.6), tree_of(self.7), tree_of(self.8), tree_of(self.9), tree_of(self.10), tree_of(self.11)]
    }
}

impl<T0: Term, T1: Term, T2: Term, T3: Term, T4: Term, T5: Term, T6: Term, T7: Term, T8: Term, T9: Term, T10: Term, T11: Term> Term for (T0, T1, T2, T3, T4, T5, T6, T7, T8, T9, T10, T11) {
    fn map_one_transform<F, P>(self, f: &mut EverywhereBut<F, P>) -> (r: Self) where
        F: TransformForAll,
        P: GenericQuery<bool>,
     {
        let ghost before = tree_of(self);
        assert(before.kids[0] == tree_of(self.0));
        assert(before.kids[1] == tree_of(self.1));
        assert(before.kids[2] == tree_of(self.2));
        assert(before.kids[3] == tree_of(self.3));
        assert(before.kids[4] == tree_of(self.4));
        assert(before.kids[5] == tree_of(self.5));
        assert(before.kids[6] == tree_of(self.6));
        assert(before.kids[7] == tree_of(self.7));
        assert(before.kids[8] == tree_of(self.8));
        assert(before.kids[9] == tree_of(self.9));
        assert(before.kids[10] == tree_of(self.10));
        assert(before.kids[11] == tree_of(self.11));
        let (t0, t1, t2, t3, t4, t5, t6, t7, t8, t9, t10, t11) = self;
        let r0 = f.transform(t0);
        let r1 = f.transform(t1);
        let r2 = f.transform(t2);
        let r3 = f.transform(t3);
        let r4 = f.transform(t4);
        let r5 = f.transform(t5);
        let r6 = f.transform(t6);
        let r7 = f.transform(t7);
        let r8 = f.transform(t8);
        let r9 = f.transform(t9);
        let r10 = f.transform(t10);
        let r11 = f.transform(t11);
        (r0, r1, r2, r3, r4, r5, r6, r7, r8, r9, r10, r11)
    }

    fn map_one_query<Q, R, F>(&self, q: &mut Everything<Q, R, F>, acc: R) -> (out: R) where
        Q: GenericQuery<R>,
        F: FnMut(R, R) -> R,
     {
        let ghost tree = tree_of(*self);
        proof {
            old(q).lemma_feeds_prefix(tree, 12, 1, acc);
            old(q).lemma_feeds_prefix(tree, 12, 2, acc);
            old(q).lemma_feeds_prefix(tree, 12, 3, acc);
            old(q).lemma_feeds_prefix(tree, 12, 4, acc);
            old(q).lemma_feeds_prefix(tree, 12, 5, acc);
            old(q).lemma_feeds_prefix(tree, 12, 6, acc);
            old(q).lemma_feeds_prefix(tree, 12, 7, acc);
            old(q).lemma_feeds_prefix(tree, 12, 8, acc);
            old(q).lemma_feeds_prefix(tree, 12, 9, acc);
            old(q).lemma_feeds_prefix(tree, 12, 10, acc);
            old(q).lemma_feeds_prefix(tree, 12, 11, acc);
        }
        let r0 = q.query(&self.0);
        let a0 = q.combine(acc, r0);
        assert(old(q).folds(tree, 0, acc, acc) && old(q).collects(tree.kids[0], r0) && call_ensures(
            old(q).fold,
            (acc, r0),
            a0,
        ));
        let r1 = q.query(&self.1);
        let a1 = q.combine(a0, r1);
        assert(old(q).folds(tree, 1, acc, a0) && old(q).collects(tree.kids[1], r1) && call_ensures(
            old(q).fold,
            (a0, r1),
            a1,
        ));
        let r2 = q.query(&self.2);
        let a2 = q.combine(a1, r2);
        assert(old(q).folds(tree, 2, acc, a1) && old(q).collects(tree.kids[2], r2) && call_ensures(
            old(q).fold,
            (a1, r2),
            a2,
        ));
        let r3 = q.query(&self.3);
        let a3 = q.combine(a2, r3);
        assert(old(q).folds(tree, 3, acc, a2) && old(q).collects(tree.kids[3], r3) && call_ensures(
            old(q).fold,
            (a2, r3),
            a3,
        ));
        let r4 = q.query(&self.4);
        let a4 = q.combine(a3, r4);
        assert(old(q).folds(tree, 4, acc, a3) && old(q).collects(tree.kids[4], r4) && call_ensures(
            old(q).fold,
            (a3, r4),
            a4,
        ));
        let r5 = q.query(&self.5);
        let a5 = q.combine(a4, r5);
        assert(old(q).folds(tree, 5, acc, a4) && old(q).collects(tree.kids[5], r5) && call_ensures(
            old(q).fold,
            (a4, r5),
            a5,
        ));
        let r6 = q.query(&self.6);
        let a6 = q.combine(a5, r6);
        assert(old(q).folds(tree, 6, acc, a5) && old(q).collects(tree.kids[6], r6) && call_ensures(
            old(q).fold,
            (a5, r6),
            a6,
        ));
        let r7 = q.query(&self.7);
        let a7 = q.combine(a6, r7);
        assert(old(q).folds(tree, 7, acc, a6) && old(q).collects(tree.kids[7], r7) && call_ensures(
            old(q).fold,
            (a6, r7),
            a7,
        ));
        let r8 = q.query(&self.8);
        let a8 = q.combine(a7, r8);
        assert(old(q).folds(tree, 8, acc, a7) && old(q).collects(tree.kids[8], r8) && call_ensures(
            old(q).fold,
            (a7, r8),
            a8,
        ));
        let r9 = q.query(&self.9);
        let a9 = q.combine(a8, r9);
        assert(old(q).folds(tree, 9, acc, a8) && old(q).collects(tree.kids[9], r9) && call_ensures(
            old(q).fold,
            (a8, r9),
            a9,
        ));
        let r10 = q.query(&self.10);
        let a10 = q.combine(a9, r10);
        assert(old(q).folds(tree, 10, acc, a9) && old(q).collects(tree.kids[10], r10) && call_ensures(
            old(q).fold,
            (a9, r10),
            a10,
        ));
        let r11 = q.query(&self.11);
        let a11 = q.combine(a10, r11);
        assert(old(q).folds(tree, 11, acc, a10) && old(q).collects(tree.kids[11], r11) && call_ensures(
            old(q).fold,
            (a10, r11),
            a11,
        ));
        a11
    }

    fn map_one_mutation<M, R, F>(&mut self, m: &mut MutateEverything<M, R, F>, acc: R) -> (out:
        R) where M: MutateForAll<R>, F: FnMut(R, R) -> R {
        let ghost before = tree_of(*self);
        assert(before.kids[0] == tree_of(self.0));
        assert(before.kids[1] == tree_of(self.1));
        assert(before.kids[2] == tree_of(self.2));
        assert(before.kids[3] == tree_of(self.3));
        assert(before.kids[4] == tree_of(self.4));
        assert(before.kids[5] == tree_of(self.5));
        assert(before.kids[6] == tree_of(self.6));
        assert(before.kids[7] == tree_of(self.7));
        assert(before.kids[8] == tree_of(self.8));
        assert(before.kids[9] == tree_of(self.9));
        assert(before.kids[10] == tree_of(self.10));
        assert(before.kids[11] == tree_of(self.11));
        let r0 = m.mutate(&mut self.0);
        let ghost s0 = tree_of(*self);
        proof {
            old(m).lemma_threads_prefix(before, before, s0, 0, acc, acc);
            assert(s0.kids[0] == tree_of(self.0));
        }
        let a0 = m.combine(acc, r0);
        let r1 = m.mutate(&mut self.1);
        let ghost s1 = tree_of(*self);
        proof {
            old(m).lemma_threads_prefix(before, s0, s1, 1, acc, a0);
            assert(s1.kids[1] == tree_of(self.1));
        }
        let a1 = m.combine(a0, r1);
        let r2 = m.mutate(&mut self.2);
        let ghost s2 = tree_of(*self);
        proof {
            old(m).lemma_threads_prefix(before, s1, s2, 2, acc, a1);
            assert(s2.kids[2] == tree_of(self.2));
        }
        let a2 = m.combine(a1, r2);
        let r3 = m.mutate(&mut self.3);
        let ghost s3 = tree_of(*self);
        proof {
            old(m).lemma_threads_prefix(before, s2, s3, 3, acc, a2);
            assert(s3.kids[3] == tree_of(self.3));
        }
        let a3 = m.combine(a2, r3);
        let r4 = m.mutate(&mut self.4);
        let ghost s4 = tree_of(*self);
        proof {
            old(m).lemma_threads_prefix(before, s3, s4, 4, acc, a3);
            assert(s4.kids[4] == tree_of(self.4));
        }
        let a4 = m.combine(a3, r4);
        let r5 = m.mutate(&mut self.5);
        let ghost s5 = tree_of(*self);
        proof {
            old(m).lemma_threads_prefix(before, s4, s5, 5, acc, a4);
            assert(s5.kids[5] == tree_of(self.5));
        }
        let a5 = m.combine(a4, r5);
        let r6 = m.mutate(&mut self.6);
        let ghost s6 = tree_of(*self);
        proof {
            old(m).lemma_threads_prefix(before, s5, s6, 6, acc, a5);
            assert(s6.kids[6] == tree_of(self.6));
        }
        let a6 = m.combine(a5, r6);
        let r7 = m.mutate(&mut self.7);
        let ghost s7 = tree_of(*self);
        proof {
            old(m).lemma_threads_prefix(before, s6, s7, 7, acc, a6);
            assert(s7.kids[7] == tree_of(self.7));
        }
        let a7 = m.combine(a6, r7);
        let r8 = m.mutate(&mut self.8);
        let ghost s8 = tree_of(*self);
        proof {
            old(m).lemma_threads_prefix(before, s7, s8, 8, acc, a7);
            assert(s8.kids[8] == tree_of(self.8));
        }
        let a8 = m.combine(a7, r8);
        let r9 = m.mutate(&mut self.9);
        let ghost s9 = tree_of(*self);
        proof {
            old(m).lemma_threads_prefix(before, s8, s9, 9, acc, a8);
            assert(s9.kids[9] == tree_of(self.9));
        }
        let a9 = m.combine(a8, r9);
        let r10 = m.mutate(&mut self.10);
        let ghost s10 = tree_of(*self);
        proof {
            old(m).lemma_threads_prefix(before, s9, s10, 10, acc, a9);
            assert(s10.kids[10] == tree_of(self.10));
        }
        let a10 = m.combine(a9, r10);
        let r11 = m.mutate(&mut self.11);
        let ghost s11 = tree_of(*self);
        proof {
            old(m).lemma_threads_prefix(before, s10, s11, 11, acc, a10);
            assert(s11.kids[11] == tree_of(self.11));
        }
        let a11 = m.combine(a10, r11);
        a11
    }
}

/// A tuple of 2 exact types is exact.
pub proof fn lemma_tuple2_exact<T0: Typed, T1: Typed>()
    requires
        exact::<T0>(),
        exact::<T1>(),
    ensures
        exact::<(T0, T1)>(),
{
    assert forall|a: (T0, T1), b: (T0, T1)| tree_of(a) == tree_of(b) implies a == b by {
        assert(a.kids()[0] == b.kids()[0]);
        assert(a.kids()[1] == b.kids()[1]);
    }
}

/// A tuple of 3 exact types is exact.
pub proof fn lemma_tuple3_exact<T0: Typed, T1: Typed, T2: Typed>()
    requires
        exact::<T0>(),
        exact::<T1>(),
        exact::<T2>(),
    ensures
        exact::<(T0, T1, T2)>(),
{
    assert forall|a: (T0, T1, T2), b: (T0, T1, T2)| tree_of(a) == tree_of(b) implies a == b by {
        assert(a.kids()[0] == b.kids()[0]);
        assert(a.kids()[1] == b.kids()[1]);
        assert(a.kids()[2] == b.kids()[2]);
    }
}

/// A tuple of 4 exact types is exact.
pub proof fn lemma_tuple4_exact<T0: Typed, T1: Typed, T2: Typed, T3: Typed>()
    requires
        exact::<T0>(),
        exact::<T1>(),
        exact::<T2>(),
        exact::<T3>(),
    ensures
        exact::<(T0, T1, T2, T3)>(),
{
    assert forall|a: (T0, T1, T2, T3), b: (T0, T1, T2, T3)| tree_of(a) == tree_of(b) implies a == b by {
        assert(a.kids()[0] == b.kids()[0]);
        assert(a.kids()[1] == b.kids()[1]);
        assert(a.kids()[2] == b.kids()[2]);
        assert(a.kids()[3] == b.kids()[3]);
    }
}

/// A tuple of 5 exact types is exact.
pub proof fn lemma_tuple5_exact<T0: Typed, T1: Typed, T2: Typed, T3: Typed, T4: Typed>()
    requires
        exact::<T0>(),
        exact::<T1>(),
        exact::<T2>(),
        exact::<T3>(),
        exact::<T4>(),
    ensures
        exact::<(T0, T1, T2, T3, T4)>(),
{
    assert forall|a: (T0, T1, T2, T3, T4), b: (T0, T1, T2, T3, T4)| tree_of(a) == tree_of(b) implies a == b by {
        assert(a.kids()[0] == b.kids()[0]);
        assert(a.kids()[1] == b.kids()[1]);
        assert(a.kids()[2] == b.kids()[2]);
        assert(a.kids()[3] == b.kids()[3]);
        assert(a.kids()[4] == b.kids()[4]);
    }
}

/// A tuple of 6 exact types is exact.
pub proof fn lemma_tuple6_exact<T0: Typed, T1: Typed, T2: Typed, T3: Typed, T4: Typed, T5: Typed>()
    requires
        exact::<T0>(),
        exact::<T1>(),
        exact::<T2>(),
        exact::<T3>(),
        exact::<T4>(),
        exact::<T5>(),
    ensures
        exact::<(T0, T1, T2, T3, T4, T5)>(),
{
    assert forall|a: (T0, T1, T2, T3, T4, T5), b: (T0, T1, T2, T3, T4, T5)| tree_of(a) == tree_of(b) implies a == b by {
        assert(a.kids()[0] == b.kids()[0]);
        assert(a.kids()[1] == b.kids()[1]);
        assert(a.kids()[2] == b.kids()[2]);
        assert(a.kids()[3] == b.kids()[3]);
        assert(a.kids()[4] == b.kids()[4]);
        assert(a.kids()[5] == b.kids()[5]);
    }
}

/// A tuple of 7 exact types is exact.
pub proof fn lemma_tuple7_exact<T0: Typed, T1: Typed, T2: Typed, T3: Typed, T4: Typed, T5: Typed, T6: Typed>()
    requires
        exact::<T0>(),
        exact::<T1>(),
        exact::<T2>(),
        exact::<T3>(),
        exact::<T4>(),
        exact::<T5>(),
        exact::<T6>(),
    ensures
        exact::<(T0, T1, T2, T3, T4, T5, T6)>(),
{
    assert forall|a: (T0, T1, T2, T3, T4, T5, T6), b: (T0, T1, T2, T3, T4, T5, T6)| tree_of(a) == tree_of(b) implies a == b by {
        assert(a.kids()[0] == b.kids()[0]);
        assert(a.kids()[1] == b.kids()[1]);
        assert(a.kids()[2] == b.kids()[2]);
        assert(a.kids()[3] == b.kids()[3]);
        assert(a.kids()[4] == b.kids()[4]);
        assert(a.kids()[5] == b.kids()[5]);
        assert(a.kids()[6] == b.kids()[6]);
    }
}

/// A tuple of 8 exact types is exact.
pub proof fn lemma_tuple8_exact<T0: Typed, T1: Typed, T2: Typed, T3: Typed, T4: Typed, T5: Typed, T6: Typed, T7: Typed>()
    requires
        exact::<T0>(),
        exact::<T1>(),
        exact::<T2>(),
        exact::<T3>(),
        exact::<T4>(),
        exact::<T5>(),
        exact::<T6>(),
        exact::<T7>(),
    ensures
        exact::<(T0, T1, T2, T3, T4, T5, T6, T7)>(),
{
    assert forall|a: (T0, T1, T2, T3, T4, T5, T6, T7), b: (T0, T1, T2, T3, T4, T5, T6, T7)| tree_of(a) == tree_of(b) implies a == b by {
        assert(a.kids()[0] == b.kids()[0]);
        assert(a.kids()[1] == b.kids()[1]);
        assert(a.kids()[2] == b.kids()[2]);
        assert(a.kids()[3] == b.kids()[3]);
        assert(a.kids()[4] == b.kids()[4]);
        assert(a.kids()[5] == b.kids()[5]);
        assert(a.kids()[6] == b.kids()[6]);
        assert(a.kids()[7] == b.kids()[7]);
    }
}

/// A tuple of 9 exact types is exact.
pub proof fn lemma_tuple9_exact<T0: Typed, T1: Typed, T2: Typed, T3: Typed, T4: Typed, T5: Typed, T6: Typed, T7: Typed, T8: Typed>()
    requires
        exact::<T0>(),
        exact::<T1>(),
        exact::<T2>(),
        exact::<T3>(),
        exact::<T4>(),
        exact::<T5>(),
        exact::<T6>(),
        exact::<T7>(),
        exact::<T8>(),
    ensures
        exact::<(T0, T1, T2, T3, T4, T5, T6, T7, T8)>(),
{
    assert forall|a: (T0, T1, T2, T3, T4, T5, T6, T7, T8), b: (T0, T1, T2, T3, T4, T5, T6, T7, T8)| tree_of(a) == tree_of(b) implies a == b by {
        assert(a.kids()[0] == b.kids()[0]);
        assert(a.kids()[1] == b.kids()[1]);
        assert(a.kids()[2] == b.kids()[2]);
        assert(a.kids()[3] == b.kids()[3]);
        assert(a.kids()[4] == b.kids()[4]);
        assert(a.kids()[5] == b.kids()[5]);
        assert(a.kids()[6] == b.kids()[6]);
        assert(a.kids()[7] == b.kids()[7]);
        assert(a.kids()[8] == b.kids()[8]);
    }
}

/// A tuple of 10 exact types is exact.
pub proof fn lemma_tuple10_exact<T0: Typed, T1: Typed, T2: Typed, T3: Typed, T4: Typed, T5: Typed, T6: Typed, T7: Typed, T8: Typed, T9: Typed>()
    requires
        exact::<T0>(),
        exact::<T1>(),
        exact::<T2>(),
        exact::<T3>(),
        exact::<T4>(),
        exact::<T5>(),
        exact::<T6>(),
        exact::<T7>(),
        exact::<T8>(),
        exact::<T9>(),
    ensures
        exact::<(T0, T1, T2, T3, T4, T5, T6, T7, T8, T9)>(),
{
    assert forall|a: (T0, T1, T2, T3, T4, T5, T6, T7, T8, T9), b: (T0, T1, T2, T3, T4, T5, T6, T7, T8, T9)| tree_of(a) == tree_of(b) implies a == b by {
        assert(a.kids()[0] == b.kids()[0]);
        assert(a.kids()[1] == b.kids()[1]);
        assert(a.kids()[2] == b.kids()[2]);
        assert(a.kids()[3] == b.kids()[3]);
        assert(a.kids()[4] == b.kids()[4]);
        assert(a.kids()[5] == b.kids()[5]);
        assert(a.kids()[6] == b.kids()[6]);
        assert(a.kids()[7] == b.kids()[7]);
        assert(a.kids()[8] == b.kids()[8]);
        assert(a.kids()[9] == b.kids()[9]);
    }
}

/// A tuple of 11 exact types is exact.
pub proof fn lemma_tuple11_exact<T0: Typed, T1: Typed, T2: Typed, T3: Typed, T4: Typed, T5: Typed, T6: Typed, T7: Typed, T8: Typed, T9: Typed, T10: Typed>()
    requires
        exact::<T0>(),
        exact::<T1>(),
        exact::<T2>(),
        exact::<T3>(),
        exact::<T4>(),
        exact::<T5>(),
        exact::<T6>(),
        exact::<T7>(),
        exact::<T8>(),
        exact::<T9>(),
        exact::<T10>(),
    ensures
        exact::<(T0, T1, T2, T3, T4, T5, T6, T7, T8, T9, T10)>(),
{
    assert forall|a: (T0, T1, T2, T3, T4, T5, T6, T7, T8, T9, T10), b: (T0, T1, T2, T3, T4, T5, T6, T7, T8, T9, T10)| tree_of(a) == tree_of(b) implies a == b by {
        assert(a.kids()[0] == b.kids()[0]);
        assert(a.kids()[1] == b.kids()[1]);
        assert(a.kids()[2] == b.kids()[2]);
        assert(a.kids()[3] == b.kids()[3]);
        assert(a.kids()[4] == b.kids()[4]);
        assert(a.kids()[5] == b.kids()[5]);
        assert(a.kids()[6] == b.kids()[6]);
        assert(a.kids()[7] == b.kids()[7]);
        assert(a.kids()[8] == b.kids()[8]);
        assert(a.kids()[9] == b.kids()[9]);
        assert(a.kids()[10] == b.kids()[10]);
    }
}

/// A tuple of 12 exact types is exact.
pub proof fn lemma_tuple12_exact<T0: Typed, T1: Typed, T2: Typed, T3: Typed, T4: Typed, T5: Typed, T6: Typed, T7: Typed, T8: Typed, T9: Typed, T10: Typed, T11: Typed>()
    requires
        exact::<T0>(),
        exact::<T1>(),
        exact::<T2>(),
        exact::<T3>(),
        exact::<T4>(),
        exact::<T5>(),
        exact::<T6>(),
        exact::<T7>(),
        exact::<T8>(),
        exact::<T9>(),
        exact::<T10>(),
        exact::<T11>(),
    ensures
        exact::<(T0, T1, T2, T3, T4, T5, T6, T7, T8, T9, T10, T11)>(),
{
    assert forall|a: (T0, T1, T2, T3, T4, T5, T6, T7, T8, T9, T10, T11), b: (T0, T1, T2, T3, T4, T5, T6, T7, T8, T9, T10, T11)| tree_of(a) == tree_of(b) implies a == b by {
        assert(a.kids()[0] == b.kids()[0]);
        assert(a.kids()[1] == b.kids()[1]);
        assert(a.kids()[2] == b.kids()[2]);
        assert(a.kids()[3] == b.kids()[3]);
        assert(a.kids()[4] == b.kids()[4]);
        assert(a.kids()[5] == b.kids()[5]);
        assert(a.kids()[6] == b.kids()[6]);
        assert(a.kids()[7] == b.kids()[7]);
        assert(a.kids()[8] == b.kids()[8]);
        assert(a.kids()[9] == b.kids()[9]);
        assert(a.kids()[10] == b.kids()[10]);
        assert(a.kids()[11] == b.kids()[11]);
    }
}

} // verus!
