// The traversals on the built-in types and on a small recursive type.

use scrapmetal::{
    Cast, Everything, Everywhere, EverywhereBut, GenericQuery, MutateEverything, MutateForAll,
    Mutation, Query, Term, TransformForAll, Transformation, Typed,
};
use std::collections::VecDeque;

/// A labelled node with any number of nodes beneath it.
#[derive(Clone, Debug, PartialEq)]
struct Node(u32, Vec<Node>);

impl Typed for Node {}

impl Term for Node {
    fn map_one_transform<F, P>(self, f: &mut EverywhereBut<F, P>) -> Self
    where
        F: TransformForAll,
        P: GenericQuery<bool>,
    {
        Node(f.transform(self.0), f.transform(self.1))
    }

    fn map_one_query<Q, R, F>(&self, q: &mut Everything<Q, R, F>, acc: R) -> R
    where
        Q: GenericQuery<R>,
        F: FnMut(R, R) -> R,
    {
        let r = q.query(&self.0);
        let acc = q.combine(acc, r);
        let r = q.query(&self.1);
        q.combine(acc, r)
    }

    fn map_one_mutation<M, R, F>(&mut self, m: &mut MutateEverything<M, R, F>, acc: R) -> R
    where
        M: MutateForAll<R>,
        F: FnMut(R, R) -> R,
    {
        let r = m.mutate(&mut self.0);
        let acc = m.combine(acc, r);
        let r = m.mutate(&mut self.1);
        m.combine(acc, r)
    }
}

fn leaf(label: u32) -> Node {
    Node(label, vec![])
}

//        1
//      / | \
//     2  5  6
//    / \     \
//   3   4     7
fn sample() -> Node {
    Node(
        1,
        vec![
            Node(2, vec![leaf(3), leaf(4)]),
            leaf(5),
            Node(6, vec![leaf(7)]),
        ],
    )
}

fn concat<T>(mut a: Vec<T>, b: Vec<T>) -> Vec<T> {
    a.extend(b);
    a
}

#[test]
fn cast_to_the_same_type_succeeds() {
    assert_eq!(Cast::<u8>::cast(7u8), Ok(7u8));
    assert_eq!(Cast::<&'static str>::cast("text"), Ok("text"));
    assert_eq!(Cast::<Vec<u32>>::cast(vec![1u32, 2]), Ok(vec![1u32, 2]));
    assert_eq!(Cast::<Node>::cast(leaf(1)), Ok(leaf(1)));
    assert_eq!(Cast::<()>::cast(()), Ok(()));
}

#[test]
fn cast_to_another_type_hands_the_value_back() {
    assert_eq!(Cast::<u16>::cast(7u8), Err(7u8));
    assert_eq!(Cast::<i64>::cast(7u64), Err(7u64));
    assert_eq!(Cast::<usize>::cast(7u64), Err(7u64));
    assert_eq!(Cast::<Vec<u32>>::cast(vec![1i32, 2]), Err(vec![1i32, 2]));
    assert_eq!(Cast::<Box<u8>>::cast(7u8), Err(7u8));
    assert_eq!(Cast::<(u8, u8)>::cast((7u8, 8u16)), Err((7u8, 8u16)));
    assert_eq!(Cast::<u32>::cast(leaf(1)), Err(leaf(1)));
    assert_eq!(Cast::<char>::cast("c"), Err("c"));
}

#[test]
fn transformation_is_the_identity_on_other_types() {
    let mut calls = 0;
    let mut double = Transformation::new(|n: u32| {
        calls += 1;
        n * 2
    });
    assert_eq!(double.transform(21u32), 42u32);
    assert_eq!(double.transform(21u64), 21u64);
    assert_eq!(double.transform(21i32), 21i32);
    assert_eq!(double.transform(vec![21u32]), vec![21u32]);
    assert_eq!(double.transform(Box::new(21u32)), Box::new(21u32));
    assert_eq!(double.transform((21u32, 21u32)), (21u32, 21u32));
    assert_eq!(double.transform(()), ());
    assert_eq!(calls, 1);
}

#[test]
fn query_falls_back_on_other_types() {
    let mut is_big = Query::new(|n: &u32| *n > 10);
    assert_eq!(is_big.query(&11u32), true);
    assert_eq!(is_big.query(&10u32), false);
    assert_eq!(is_big.query(&11u64), false);
    assert_eq!(is_big.query(&"11"), false);

    let mut made = 0;
    let mut length = Query::or_else(
        || {
            made += 1;
            usize::MAX
        },
        |v: &Vec<u8>| v.len(),
    );
    assert_eq!(length.query(&vec![1u8, 2, 3]), 3);
    assert_eq!(length.query(&Vec::<u8>::new()), 0);
    assert_eq!(length.query(&vec![1u16, 2, 3]), usize::MAX);
    assert_eq!(length.query(&7u8), usize::MAX);
    assert_eq!(made, 2);
}

#[test]
fn mutation_falls_back_on_other_types() {
    let mut clear = Mutation::or_else(|| None, |v: &mut Vec<u8>| {
        let n = v.len();
        v.clear();
        Some(n)
    });
    let mut bytes = vec![1u8, 2, 3];
    assert_eq!(clear.mutate(&mut bytes), Some(3));
    assert_eq!(bytes, Vec::<u8>::new());

    let mut words = vec![1u16, 2, 3];
    assert_eq!(clear.mutate(&mut words), None);
    assert_eq!(words, vec![1u16, 2, 3]);

    let mut text = "abc";
    assert_eq!(clear.mutate(&mut text), None);
    assert_eq!(text, "abc");
}

#[test]
fn everywhere_on_a_leaf_is_the_transformation() {
    let mut not = Transformation::new(|b: bool| !b);
    let direct = not.transform(true);
    let mut everywhere = Everywhere::new(Transformation::new(|b: bool| !b));
    assert_eq!(everywhere.transform(true), direct);
    assert_eq!(everywhere.transform(true), false);
    assert_eq!(everywhere.transform('x'), 'x');
    assert_eq!(everywhere.transform(()), ());
    assert_eq!(everywhere.transform("leaf"), "leaf");
}

#[test]
fn everything_on_a_leaf_is_the_query() {
    let mut joined = 0;
    let mut code = Everything::new(Query::or_else(|| 42, |c: &char| *c as u32), |a, b| {
        joined += 1;
        a + b
    });
    assert_eq!(code.query(&'a'), 97);
    assert_eq!(code.query(&true), 42);
    assert_eq!(code.query(&7u8), 42);
    assert_eq!(joined, 0);
}

#[test]
fn mutate_everything_on_a_leaf_is_the_mutation() {
    let mut joined = 0;
    let mut bump = MutateEverything::new(
        Mutation::new(|n: &mut u8| {
            *n += 1;
            *n
        }),
        |a, b| {
            joined += 1;
            a + b
        },
    );
    let mut n = 7u8;
    assert_eq!(bump.mutate(&mut n), 8);
    assert_eq!(n, 8);
    let mut c = 'c';
    assert_eq!(bump.mutate(&mut c), 0);
    assert_eq!(c, 'c');
    assert_eq!(joined, 0);
}

#[test]
fn everywhere_with_the_identity_changes_nothing() {
    let mut same = Everywhere::new(Transformation::new(|n: Node| n));
    assert_eq!(same.transform(sample()), sample());
    assert_eq!(same.transform(leaf(0)), leaf(0));
    assert_eq!(same.transform(vec![1u8, 2, 3]), vec![1u8, 2, 3]);

    let mut same = Everywhere::new(Transformation::new(|n: u32| n));
    assert_eq!(same.transform(sample()), sample());

    let mut same = Everywhere::new(Transformation::new(|b: bool| b));
    let nested = (vec![Box::new((true, 1u8))], "text", VecDeque::from(vec![false]));
    assert_eq!(same.transform(nested.clone()), nested);
}

#[test]
fn everywhere_reaches_every_depth() {
    let mut inc = Everywhere::new(Transformation::new(|n: u32| n + 10));
    assert_eq!(
        inc.transform(sample()),
        Node(
            11,
            vec![
                Node(12, vec![leaf(13), leaf(14)]),
                leaf(15),
                Node(16, vec![leaf(17)]),
            ],
        )
    );
}

#[test]
fn everywhere_rewrites_children_before_parents() {
    // The label of a node becomes one more than the sum of the labels of
    // its children: the size of the subtree, if the children were
    // rewritten first.
    let mut size = Everywhere::new(Transformation::new(|n: Node| {
        let below: u32 = n.1.iter().map(|c| c.0).sum();
        Node(1 + below, n.1)
    }));
    assert_eq!(
        size.transform(sample()),
        Node(
            7,
            vec![
                Node(3, vec![leaf(1), leaf(1)]),
                leaf(1),
                Node(2, vec![leaf(1)]),
            ],
        )
    );
}

#[test]
fn everywhere_visits_left_to_right_and_bottom_up() {
    let mut seen = Vec::new();
    let mut record = Everywhere::new(Transformation::new(|n: Node| {
        seen.push(n.0);
        n
    }));
    record.transform(sample());
    assert_eq!(seen, vec![3, 4, 2, 5, 7, 6, 1]);
}

#[test]
fn everything_visits_self_first_then_children_from_the_left() {
    let mut index = 0;
    let mut visit = Everything::new(
        Query::or_else(Vec::new, |n: &Node| {
            index += 1;
            vec![(n.0, index)]
        }),
        concat,
    );
    assert_eq!(
        visit.query(&sample()),
        vec![(1, 1), (2, 2), (3, 3), (4, 4), (5, 5), (6, 6), (7, 7)]
    );
}

#[test]
fn everything_joins_from_the_left() {
    // ((100 - 1) - 2) - 3, and not 100 - (1 - (2 - 3))
    let mut minus = Everything::new(Query::or_else(|| 100i64, |n: &u8| *n as i64), |a, b| a - b);
    assert_eq!(minus.query(&(1u8, 2u8, 3u8)), 94);
    // (100 - 1) - ((100 - 2) - 3)
    assert_eq!(minus.query(&(1u8, (2u8, 3u8))), 4);
    // 100 - ((100 - 1) - 2), for a list
    assert_eq!(minus.query(&vec![1u8, 2u8]), 100 - 1 - 2);
    assert_eq!(minus.query(&Vec::<u8>::new()), 100);
}

#[test]
fn everywhere_but_leaves_a_pruned_subtree_alone() {
    let mut calls = Vec::new();
    let mut bump = EverywhereBut::new(
        Query::or_else(|| true, |n: &Node| n.0 != 2),
        Transformation::new(|n: Node| {
            calls.push(n.0);
            Node(n.0 + 10, n.1)
        }),
    );
    assert_eq!(
        bump.transform(sample()),
        Node(
            11,
            vec![
                Node(2, vec![leaf(3), leaf(4)]),
                Node(15, vec![]),
                Node(16, vec![leaf(17)]),
            ],
        )
    );
    assert_eq!(calls, vec![5, 7, 6, 1]);
}

#[test]
fn everywhere_but_pruned_at_the_root_does_nothing() {
    let mut asked = 0;
    let mut calls = 0;
    let mut bump = EverywhereBut::new(
        Query::or_else(
            || {
                asked += 1;
                false
            },
            |_: &char| true,
        ),
        Transformation::new(|n: u32| {
            calls += 1;
            n + 1
        }),
    );
    assert_eq!(bump.transform(sample()), sample());
    assert_eq!(bump.transform(7u32), 7u32);
    assert_eq!(asked, 2);
    assert_eq!(calls, 0);
}

#[test]
fn everywhere_but_with_an_open_guard_is_everywhere() {
    let mut guarded = EverywhereBut::new(
        Query::or_else(|| true, |_: &Node| true),
        Transformation::new(|n: u32| n * 2),
    );
    let mut plain = Everywhere::new(Transformation::new(|n: u32| n * 2));
    assert_eq!(guarded.transform(sample()), plain.transform(sample()));
}

#[test]
fn mutate_everything_mutates_a_node_before_its_children() {
    // A node grows a child with a label one less than its own; the child is
    // visited after that and grows its own.
    let mut grow = MutateEverything::new(
        Mutation::new(|n: &mut Node| {
            if n.0 > 0 {
                n.1.push(leaf(n.0 - 1));
            }
            1u32
        }),
        |a, b| a + b,
    );
    let mut node = leaf(2);
    assert_eq!(grow.mutate(&mut node), 3);
    assert_eq!(node, Node(2, vec![Node(1, vec![leaf(0)])]));
}

#[test]
fn mutate_everything_visits_in_order() {
    let mut next = 0;
    let mut number = MutateEverything::new(
        Mutation::or_else(Vec::new, |n: &mut u32| {
            let was = *n;
            next += 1;
            *n = next;
            vec![was]
        }),
        concat,
    );
    let mut node = sample();
    assert_eq!(number.mutate(&mut node), vec![1, 2, 3, 4, 5, 6, 7]);
    assert_eq!(node, sample());

    let mut reversed = Node(
        7,
        vec![
            Node(6, vec![leaf(5), leaf(4)]),
            leaf(3),
            Node(2, vec![leaf(1)]),
        ],
    );
    assert_eq!(number.mutate(&mut reversed), vec![7, 6, 5, 4, 3, 2, 1]);
    assert_eq!(
        reversed,
        Node(
            8,
            vec![
                Node(9, vec![leaf(10), leaf(11)]),
                leaf(12),
                Node(13, vec![leaf(14)]),
            ],
        )
    );
}

#[test]
fn lists_keep_their_order_and_length() {
    let mut inc = Everywhere::new(Transformation::new(|n: u8| n + 1));
    assert_eq!(inc.transform(vec![1u8, 2, 3]), vec![2u8, 3, 4]);
    assert_eq!(inc.transform(Vec::<u8>::new()), Vec::<u8>::new());
    assert_eq!(
        inc.transform(VecDeque::from(vec![1u8, 2, 3])),
        VecDeque::from(vec![2u8, 3, 4])
    );
    assert_eq!(inc.transform(VecDeque::<u8>::new()), VecDeque::<u8>::new());
    assert_eq!(inc.transform(vec![vec![1u8], vec![], vec![2, 3]]), vec![vec![2u8], vec![], vec![3, 4]]);

    let mut list = Everything::new(Query::new(|n: &u8| vec![*n]), concat);
    assert_eq!(list.query(&VecDeque::from(vec![3u8, 1, 2])), vec![3u8, 1, 2]);
    assert_eq!(list.query(&vec![vec![3u8], vec![1, 2]]), vec![3u8, 1, 2]);

    let mut rotated = VecDeque::from(vec![2u8, 3]);
    rotated.push_front(1);
    let mut bump = MutateEverything::new(
        Mutation::new(|n: &mut u8| {
            *n *= 2;
            vec![*n]
        }),
        concat,
    );
    assert_eq!(bump.mutate(&mut rotated), vec![2u8, 4, 6]);
    assert_eq!(rotated, VecDeque::from(vec![2u8, 4, 6]));
}

#[test]
fn boxes_have_one_child() {
    let mut inc = Everywhere::new(Transformation::new(|n: u8| n + 1));
    assert_eq!(inc.transform(Box::new(1u8)), Box::new(2u8));
    assert_eq!(inc.transform(Box::new(Box::new(1u8))), Box::new(Box::new(2u8)));

    let mut whole = Everywhere::new(Transformation::new(|b: Box<u8>| Box::new(*b + 1)));
    assert_eq!(whole.transform(Box::new(Box::new(1u8))), Box::new(Box::new(2u8)));

    let mut count = Everything::new(Query::or_else(|| 1u32, |_: &u8| 1u32), |a, b| a + b);
    assert_eq!(count.query(&Box::new(Box::new(1u8))), 3);

    let mut boxed = Box::new(1u8);
    let mut bump = MutateEverything::new(Mutation::new(|n: &mut u8| *n += 1), |_, _| ());
    bump.mutate(&mut boxed);
    assert_eq!(boxed, Box::new(2u8));
}

#[test]
fn tuples_have_their_components_as_children() {
    let mut inc = Everywhere::new(Transformation::new(|n: u8| n + 1));
    assert_eq!(inc.transform((1u8, 'a')), (2u8, 'a'));
    assert_eq!(inc.transform((1u8, 2u16, 3u8)), (2u8, 2u16, 4u8));
    assert_eq!(
        inc.transform((1u8, 2u8, 3u8, 4u8, 5u8, 6u8, 7u8, 8u8, 9u8, 10u8, 11u8, 12u8)),
        (2u8, 3u8, 4u8, 5u8, 6u8, 7u8, 8u8, 9u8, 10u8, 11u8, 12u8, 13u8)
    );

    let mut list = Everything::new(Query::new(|n: &u8| vec![*n]), concat);
    assert_eq!(list.query(&(1u8, 'a', 2u8, "b")), vec![1u8, 2]);
    assert_eq!(
        list.query(&(1u8, 2u8, 3u8, 4u8, 5u8, 6u8, 7u8, 8u8, 9u8, 10u8, 11u8, 12u8)),
        vec![1u8, 2, 3, 4, 5, 6, 7, 8, 9, 10, 11, 12]
    );
    assert_eq!(list.query(&((1u8, 2u8), (3u8, (4u8, 5u8)))), vec![1u8, 2, 3, 4, 5]);

    let mut next = 0u8;
    let mut number = MutateEverything::new(
        Mutation::new(|n: &mut u8| {
            next += 1;
            *n = next;
        }),
        |_, _| (),
    );
    let mut five = (0u8, 0u8, 'c', 0u8, (0u8, 0u8));
    number.mutate(&mut five);
    assert_eq!(five, (1u8, 2u8, 'c', 3u8, (4u8, 5u8)));
    let mut twelve = (0u8, 0u8, 0u8, 0u8, 0u8, 0u8, 0u8, 0u8, 0u8, 0u8, 0u8, 0u8);
    number.mutate(&mut twelve);
    assert_eq!(twelve, (6u8, 7u8, 8u8, 9u8, 10u8, 11u8, 12u8, 13u8, 14u8, 15u8, 16u8, 17u8));
}

#[test]
fn the_whole_value_of_the_target_type_is_rewritten_last() {
    // The list is a value of the target type, and so is each list in it.
    let mut reverse = Everywhere::new(Transformation::new(|mut v: Vec<Node>| {
        v.reverse();
        v
    }));
    assert_eq!(
        reverse.transform(sample()),
        Node(
            1,
            vec![
                Node(6, vec![leaf(7)]),
                leaf(5),
                Node(2, vec![leaf(4), leaf(3)]),
            ],
        )
    );
}

#[test]
fn mutate_everything_hands_down_what_the_parent_has_written() {
    // A node adds its label to the labels of its children. The children are
    // visited after that, so the sums grow on the way down; bottom up, the
    // innermost node would end with 2.
    let mut hand_down = MutateEverything::new(
        Mutation::new(|n: &mut Node| {
            let k = n.0;
            for c in n.1.iter_mut() {
                c.0 += k;
            }
        }),
        |_, _| (),
    );
    let mut node = Node(1, vec![Node(1, vec![leaf(1)])]);
    hand_down.mutate(&mut node);
    assert_eq!(node, Node(1, vec![Node(2, vec![leaf(3)])]));
}

#[test]
fn mutate_everything_and_everywhere_agree_where_no_target_holds_another() {
    let mut in_place = MutateEverything::new(Mutation::new(|n: &mut u32| *n = *n * 3 + 1), |_, _| ());
    let mut anew = Everywhere::new(Transformation::new(|n: u32| n * 3 + 1));
    let mut node = sample();
    in_place.mutate(&mut node);
    assert_eq!(node, anew.transform(sample()));

    let mut nested = (vec![Box::new(1u32), Box::new(2u32)], 3u32, VecDeque::from(vec![4u32]));
    let expected = anew.transform(nested.clone());
    in_place.mutate(&mut nested);
    assert_eq!(nested, expected);
    assert_eq!(nested, (vec![Box::new(4u32), Box::new(7u32)], 10u32, VecDeque::from(vec![13u32])));
}

/// A type of its own around a `u32`.
#[derive(Clone, Debug, PartialEq)]
struct Wrapped(u32);

impl Typed for Wrapped {}

impl Term for Wrapped {
    fn map_one_transform<F, P>(self, _: &mut EverywhereBut<F, P>) -> Self
    where
        F: TransformForAll,
        P: GenericQuery<bool>,
    {
        self
    }

    fn map_one_query<Q, R, F>(&self, _: &mut Everything<Q, R, F>, acc: R) -> R
    where
        Q: GenericQuery<R>,
        F: FnMut(R, R) -> R,
    {
        acc
    }

    fn map_one_mutation<M, R, F>(&mut self, _: &mut MutateEverything<M, R, F>, acc: R) -> R
    where
        M: MutateForAll<R>,
        F: FnMut(R, R) -> R,
    {
        acc
    }
}

#[test]
fn a_type_that_looks_the_same_is_another_type() {
    assert_eq!(Cast::<u32>::cast(Wrapped(1)), Err(Wrapped(1)));
    assert_eq!(Cast::<Wrapped>::cast(1u32), Err(1u32));
    assert_eq!(Cast::<Wrapped>::cast(Wrapped(1)), Ok(Wrapped(1)));
    assert_eq!(Cast::<Node>::cast(Wrapped(1)), Err(Wrapped(1)));

    let mut calls = 0;
    let mut inc = Everywhere::new(Transformation::new(|n: u32| {
        calls += 1;
        n + 1
    }));
    assert_eq!(inc.transform(Wrapped(1)), Wrapped(1));
    assert_eq!(inc.transform((Wrapped(1), 1u32)), (Wrapped(1), 2u32));
    assert_eq!(calls, 1);

    let mut unwrap = Everything::new(Query::or_else(|| 0, |w: &Wrapped| w.0), |a, b| a + b);
    assert_eq!(unwrap.query(&vec![Wrapped(1), Wrapped(2)]), 3);
    assert_eq!(unwrap.query(&vec![1u32, 2u32]), 0);
}
