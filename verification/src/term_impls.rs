//! The protocol for the built-in types: the types without children, boxes,
//! lists and queues.

use crate::model::Tree;
use crate::mutation::{MutateEverything, MutateForAll};
use crate::query::{Everything, GenericQuery};
use crate::term::Term;
use crate::transform::{EverywhereBut, TransformForAll};
use crate::typed::{tree_of, Typed};
use std::collections::VecDeque;
use vstd::prelude::*;

verus! {

impl Term for () {
    fn map_one_transform<F, P>(self, f: &mut EverywhereBut<F, P>) -> (r: Self) where
        F: TransformForAll,
        P: GenericQuery<bool>,
     {
        self
    }

    fn map_one_query<Q, R, F>(&self, q: &mut Everything<Q, R, F>, acc: R) -> (out: R) where
        Q: GenericQuery<R>,
        F: FnMut(R, R) -> R,
     {
        acc
    }

    fn map_one_mutation<M, R, F>(&mut self, m: &mut MutateEverything<M, R, F>, acc: R) -> (out:
        R) where M: MutateForAll<R>, F: FnMut(R, R) -> R {
        acc
    }
}

impl Term for bool {
    fn map_one_transform<F, P>(self, f: &mut EverywhereBut<F, P>) -> (r: Self) where
        F: TransformForAll,
        P: GenericQuery<bool>,
     {
        self
    }

    fn map_one_query<Q, R, F>(&self, q: &mut Everything<Q, R, F>, acc: R) -> (out: R) where
        Q: GenericQuery<R>,
        F: FnMut(R, R) -> R,
     {
        acc
    }

    fn map_one_mutation<M, R, F>(&mut self, m: &mut MutateEverything<M, R, F>, acc: R) -> (out:
        R) where M: MutateForAll<R>, F: FnMut(R, R) -> R {
        acc
    }
}

impl Term for char {
    fn map_one_transform<F, P>(self, f: &mut EverywhereBut<F, P>) -> (r: Self) where
        F: TransformForAll,
        P: GenericQuery<bool>,
     {
        self
    }

    fn map_one_query<Q, R, F>(&self, q: &mut Everything<Q, R, F>, acc: R) -> (out: R) where
        Q: GenericQuery<R>,
        F: FnMut(R, R) -> R,
     {
        acc
    }

    fn map_one_mutation<M, R, F>(&mut self, m: &mut MutateEverything<M, R, F>, acc: R) -> (out:
        R) where M: MutateForAll<R>, F: FnMut(R, R) -> R {
        acc
    }
}

impl Term for &'static str {
    fn map_one_transform<F, P>(self, f: &mut EverywhereBut<F, P>) -> (r: Self) where
        F: TransformForAll,
        P: GenericQuery<bool>,
     {
        self
    }

    fn map_one_query<Q, R, F>(&self, q: &mut Everything<Q, R, F>, acc: R) -> (out: R) where
        Q: GenericQuery<R>,
        F: FnMut(R, R) -> R,
     {
        acc
    }

    fn map_one_mutation<M, R, F>(&mut self, m: &mut MutateEverything<M, R, F>, acc: R) -> (out:
        R) where M: MutateForAll<R>, F: FnMut(R, R) -> R {
        acc
    }
}

impl Term for usize {
    fn map_one_transform<F, P>(self, f: &mut EverywhereBut<F, P>) -> (r: Self) where
        F: TransformForAll,
        P: GenericQuery<bool>,
     {
        self
    }

    fn map_one_query<Q, R, F>(&self, q: &mut Everything<Q, R, F>, acc: R) -> (out: R) where
        Q: GenericQuery<R>,
        F: FnMut(R, R) -> R,
     {
        acc
    }

    fn map_one_mutation<M, R, F>(&mut self, m: &mut MutateEverything<M, R, F>, acc: R) -> (out:
        R) where M: MutateForAll<R>, F: FnMut(R, R) -> R {
        acc
    }
}

impl Term for u8 {
    fn map_one_transform<F, P>(self, f: &mut EverywhereBut<F, P>) -> (r: Self) where
        F: TransformForAll,
        P: GenericQuery<bool>,
     {
        self
    }

    fn map_one_query<Q, R, F>(&self, q: &mut Everything<Q, R, F>, acc: R) -> (out: R) where
        Q: GenericQuery<R>,
        F: FnMut(R, R) -> R,
     {
        acc
    }

    fn map_one_mutation<M, R, F>(&mut self, m: &mut MutateEverything<M, R, F>, acc: R) -> (out:
        R) where M: MutateForAll<R>, F: FnMut(R, R) -> R {
        acc
    }
}

impl Term for u16 {
    fn map_one_transform<F, P>(self, f: &mut EverywhereBut<F, P>) -> (r: Self) where
        F: TransformForAll,
        P: GenericQuery<bool>,
     {
        self
    }

    fn map_one_query<Q, R, F>(&self, q: &mut Everything<Q, R, F>, acc: R) -> (out: R) where
        Q: GenericQuery<R>,
        F: FnMut(R, R) -> R,
     {
        acc
    }

    fn map_one_mutation<M, R, F>(&mut self, m: &mut MutateEverything<M, R, F>, acc: R) -> (out:
        R) where M: MutateForAll<R>, F: FnMut(R, R) -> R {
        acc
    }
}

impl Term for u32 {
    fn map_one_transform<F, P>(self, f: &mut EverywhereBut<F, P>) -> (r: Self) where
        F: TransformForAll,
        P: GenericQuery<bool>,
     {
        self
    }

    fn map_one_query<Q, R, F>(&self, q: &mut Everything<Q, R, F>, acc: R) -> (out: R) where
        Q: GenericQuery<R>,
        F: FnMut(R, R) -> R,
     {
        acc
    }

    fn map_one_mutation<M, R, F>(&mut self, m: &mut MutateEverything<M, R, F>, acc: R) -> (out:
        R) where M: MutateForAll<R>, F: FnMut(R, R) -> R {
        acc
    }
}

impl Term for u64 {
    fn map_one_transform<F, P>(self, f: &mut EverywhereBut<F, P>) -> (r: Self) where
        F: TransformForAll,
        P: GenericQuery<bool>,
     {
        self
    }

    fn map_one_query<Q, R, F>(&self, q: &mut Everything<Q, R, F>, acc: R) -> (out: R) where
        Q: GenericQuery<R>,
        F: FnMut(R, R) -> R,
     {
        acc
    }

    fn map_one_mutation<M, R, F>(&mut self, m: &mut MutateEverything<M, R, F>, acc: R) -> (out:
        R) where M: MutateForAll<R>, F: FnMut(R, R) -> R {
        acc
    }
}

impl Term for isize {
    fn map_one_transform<F, P>(self, f: &mut EverywhereBut<F, P>) -> (r: Self) where
        F: TransformForAll,
        P: GenericQuery<bool>,
     {
        self
    }

    fn map_one_query<Q, R, F>(&self, q: &mut Everything<Q, R, F>, acc: R) -> (out: R) where
        Q: GenericQuery<R>,
        F: FnMut(R, R) -> R,
     {
        acc
    }

    fn map_one_mutation<M, R, F>(&mut self, m: &mut MutateEverything<M, R, F>, acc: R) -> (out:
        R) where M: MutateForAll<R>, F: FnMut(R, R) -> R {
        acc
    }
}

impl Term for i8 {
    fn map_one_transform<F, P>(self, f: &mut EverywhereBut<F, P>) -> (r: Self) where
        F: TransformForAll,
        P: GenericQuery<bool>,
     {
        self
    }

    fn map_one_query<Q, R, F>(&self, q: &mut Everything<Q, R, F>, acc: R) -> (out: R) where
        Q: GenericQuery<R>,
        F: FnMut(R, R) -> R,
     {
        acc
    }

    fn map_one_mutation<M, R, F>(&mut self, m: &mut MutateEverything<M, R, F>, acc: R) -> (out:
        R) where M: MutateForAll<R>, F: FnMut(R, R) -> R {
        acc
    }
}

impl Term for i16 {
    fn map_one_transform<F, P>(self, f: &mut EverywhereBut<F, P>) -> (r: Self) where
        F: TransformForAll,
        P: GenericQuery<bool>,
     {
        self
    }

    fn map_one_query<Q, R, F>(&self, q: &mut Everything<Q, R, F>, acc: R) -> (out: R) where
        Q: GenericQuery<R>,
        F: FnMut(R, R) -> R,
     {
        acc
    }

    fn map_one_mutation<M, R, F>(&mut self, m: &mut MutateEverything<M, R, F>, acc: R) -> (out:
        R) where M: MutateForAll<R>, F: FnMut(R, R) -> R {
        acc
    }
}

impl Term for i32 {
    fn map_one_transform<F, P>(self, f: &mut EverywhereBut<F, P>) -> (r: Self) where
        F: TransformForAll,
        P: GenericQuery<bool>,
     {
        self
    }

    fn map_one_query<Q, R, F>(&self, q: &mut Everything<Q, R, F>, acc: R) -> (out: R) where
        Q: GenericQuery<R>,
        F: FnMut(R, R) -> R,
     {
        acc
    }

    fn map_one_mutation<M, R, F>(&mut self, m: &mut MutateEverything<M, R, F>, acc: R) -> (out:
        R) where M: MutateForAll<R>, F: FnMut(R, R) -> R {
        acc
    }
}

impl Term for i64 {
    fn map_one_transform<F, P>(self, f: &mut EverywhereBut<F, P>) -> (r: Self) where
        F: TransformForAll,
        P: GenericQuery<bool>,
     {
        self
    }

    fn map_one_query<Q, R, F>(&self, q: &mut Everything<Q, R, F>, acc: R) -> (out: R) where
        Q: GenericQuery<R>,
        F: FnMut(R, R) -> R,
     {
        acc
    }

    fn map_one_mutation<M, R, F>(&mut self, m: &mut MutateEverything<M, R, F>, acc: R) -> (out:
        R) where M: MutateForAll<R>, F: FnMut(R, R) -> R {
        acc
    }
}

impl<T: Term> Term for Box<T> {
    fn map_one_transform<F, P>(self, f: &mut EverywhereBut<F, P>) -> (r: Self) where
        F: TransformForAll,
        P: GenericQuery<bool>,
     {
        assert(tree_of(self).kids[0] == tree_of(*self));
        Box::new(f.transform(*self))
    }

    fn map_one_query<Q, R, F>(&self, q: &mut Everything<Q, R, F>, acc: R) -> (out: R) where
        Q: GenericQuery<R>,
        F: FnMut(R, R) -> R,
     {
        assert(old(q).folds(tree_of(*self), 0, acc, acc));
        let r = q.query(&**self);
        q.combine(acc, r)
    }

    fn map_one_mutation<M, R, F>(&mut self, m: &mut MutateEverything<M, R, F>, acc: R) -> (out:
        R) where M: MutateForAll<R>, F: FnMut(R, R) -> R {
        let ghost before = tree_of(*self);
        assert(before.kids[0] == tree_of(**self));
        let r = m.mutate(&mut **self);
        let ghost after = tree_of(*self);
        assert(after.kids[0] == tree_of(**self));
        assert(old(m).threads(before, after, 0, acc, acc));
        m.combine(acc, r)
    }
}

impl<T: Term> Term for Vec<T> {
    fn map_one_transform<F, P>(self, f: &mut EverywhereBut<F, P>) -> (r: Self) where
        F: TransformForAll,
        P: GenericQuery<bool>,
     {
        let mut out: Vec<T> = Vec::new();
        for t in iter: self.into_iter()
            invariant
                *f == *old(f),
                iter.seq() == self@,
                out@.len() == iter.index(),
                forall|i: int|
                    0 <= i < self@.len() ==> old(f).accepts(#[trigger] tree_of(self).kids[i]),
                forall|i: int|
                    0 <= i < out@.len() ==> old(f).rewrites(
                        #[trigger] tree_of(self@[i]),
                        tree_of(out@[i]),
                    ),
        {
            assert(tree_of(self).kids[iter.index() as int] == tree_of(t));
            let r = f.transform(t);
            out.push(r);
        }
        assert forall|i: int| 0 <= i < tree_of(self).kids.len() implies old(f).rewrites(
            #[trigger] tree_of(self).kids[i],
            tree_of(out).kids[i],
        ) by {
        }
        out
    }

    fn map_one_query<Q, R, F>(&self, q: &mut Everything<Q, R, F>, acc: R) -> (out: R) where
        Q: GenericQuery<R>,
        F: FnMut(R, R) -> R,
     {
        let ghost tree = tree_of(*self);
        let mut acc = acc;
        let ghost acc0 = acc;
        let mut i: usize = 0;
        while i < self.len()
            invariant
                i <= self.len(),
                tree == tree_of(*self),
                *q == *old(q),
                old(q).feeds(tree, tree.kids.len(), acc0),
                old(q).folds(tree, i as nat, acc0, acc),
            decreases self.len() - i,
        {
            proof {
                old(q).lemma_feeds_prefix(tree, tree.kids.len(), (i + 1) as nat, acc0);
            }
            let r = q.query(&self[i]);
            acc = q.combine(acc, r);
            i += 1;
        }
        acc
    }

    fn map_one_mutation<M, R, F>(&mut self, m: &mut MutateEverything<M, R, F>, acc: R) -> (out:
        R) where M: MutateForAll<R>, F: FnMut(R, R) -> R {
        let ghost before = tree_of(*self);
        let mut acc = acc;
        let ghost acc0 = acc;
        let n = self.len();
        let mut i: usize = 0;
        while i < n
            invariant
                i <= n,
                n == self@.len(),
                n == old(self)@.len(),
                before == tree_of(*old(self)),
                *m == *old(m),
                old(m).joins(before, acc0),
                forall|j: int| 0 <= j < n ==> old(m).accepts(#[trigger] before.kids[j]),
                forall|j: int| i <= j < n ==> self@[j] == old(self)@[j],
                old(m).threads(before, tree_of(*self), i as nat, acc0, acc),
            decreases n - i,
        {
            let ghost cur = tree_of(*self);
            assert(before.kids[i as int] == tree_of(self@[i as int]));
            let r = m.mutate(&mut self[i]);
            let ghost next = tree_of(*self);
            proof {
                assert forall|j: int| 0 <= j < i implies cur.kids[j] == next.kids[j] by {}
                old(m).lemma_threads_prefix(before, cur, next, i as nat, acc0, acc);
                assert(next.kids[i as int] == tree_of(self@[i as int]));
            }
            acc = m.combine(acc, r);
            i += 1;
        }
        acc
    }
}

impl<T: Term> Term for VecDeque<T> {
    fn map_one_transform<F, P>(self, f: &mut EverywhereBut<F, P>) -> (r: Self) where
        F: TransformForAll,
        P: GenericQuery<bool>,
     {
        let ghost before = tree_of(self);
        let n = self.len();
        let mut rest = self;
        let mut out: VecDeque<T> = VecDeque::new();
        let mut i: usize = 0;
        while i < n
            invariant
                i <= n,
                n == self@.len(),
                before == tree_of(self),
                *f == *old(f),
                rest@ == self@.subrange(i as int, n as int),
                out@.len() == i,
                forall|j: int| 0 <= j < n ==> old(f).accepts(#[trigger] before.kids[j]),
                forall|j: int|
                    0 <= j < i ==> old(f).rewrites(#[trigger] before.kids[j], tree_of(out@[j])),
            decreases n - i,
        {
            match rest.pop_front() {
                Some(t) => {
                    assert(before.kids[i as int] == tree_of(t));
                    let r = f.transform(t);
                    out.push_back(r);
                },
                None => {},
            }
            i += 1;
        }
        assert forall|j: int| 0 <= j < before.kids.len() implies old(f).rewrites(
            #[trigger] before.kids[j],
            tree_of(out).kids[j],
        ) by {
        }
        out
    }

    fn map_one_query<Q, R, F>(&self, q: &mut Everything<Q, R, F>, acc: R) -> (out: R) where
        Q: GenericQuery<R>,
        F: FnMut(R, R) -> R,
     {
        let ghost tree = tree_of(*self);
        let mut acc = acc;
        let ghost acc0 = acc;
        let mut i: usize = 0;
        while i < self.len()
            invariant
                i <= self.len(),
                tree == tree_of(*self),
                *q == *old(q),
                old(q).feeds(tree, tree.kids.len(), acc0),
                old(q).folds(tree, i as nat, acc0, acc),
            decreases self.len() - i,
        {
            proof {
                old(q).lemma_feeds_prefix(tree, tree.kids.len(), (i + 1) as nat, acc0);
            }
            let r = q.query(&self[i]);
            acc = q.combine(acc, r);
            i += 1;
        }
        acc
    }

    fn map_one_mutation<M, R, F>(&mut self, m: &mut MutateEverything<M, R, F>, acc: R) -> (out:
        R) where M: MutateForAll<R>, F: FnMut(R, R) -> R {
        let ghost before = tree_of(*self);
        let mut acc = acc;
        let ghost acc0 = acc;
        let n = self.len();
        let ghost mut seen = before;
        let mut i: usize = 0;
        while i < n
            invariant
                i <= n,
                n == old(self)@.len(),
                n == self@.len(),
                before == tree_of(*old(self)),
                *m == *old(m),
                old(m).joins(before, acc0),
                forall|j: int| 0 <= j < n ==> old(m).accepts(#[trigger] before.kids[j]),
                before.same_frame(seen),
                forall|j: int| 0 <= j < n - i ==> self@[j] == old(self)@[i + j],
                forall|j: int| 0 <= j < i ==> seen.kids[j] == tree_of(self@[n - i + j]),
                old(m).threads(before, seen, i as nat, acc0, acc),
            decreases n - i,
        {
            match self.pop_front() {
                Some(t) => {
                    let mut t = t;
                    assert(before.kids[i as int] == tree_of(t));
                    let r = m.mutate(&mut t);
                    let ghost last = seen;
                    proof {
                        seen = Tree {
                            mark: last.mark,
                            sort: last.sort,
                            label: last.label,
                            kids: last.kids.update(i as int, tree_of(t)),
                        };
                        old(m).lemma_threads_prefix(before, last, seen, i as nat, acc0, acc);
                        assert(seen.kids[i as int] == tree_of(t));
                    }
                    acc = m.combine(acc, r);
                    self.push_back(t);
                },
                None => {},
            }
            i += 1;
        }
        assert(tree_of(*self).kids =~= seen.kids);
        acc
    }
}

} // verus!
