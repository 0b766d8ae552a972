use scrapmetal::{
    Anywhere, ByDefault, Cast, Everywhere, Fallback, GenericQuery, MutateForAll, Mutation, Query,
    TransformForAll, Transformation,
};

#[test]
fn casting() {
    assert_eq!(Cast::<bool>::cast(1), Err(1));
    assert_eq!(Cast::<bool>::cast(true), Ok(true));
}

#[test]
fn transformation() {
    let mut not = Transformation::new(|b: bool| !b);
    assert_eq!(not.transform(true), false);
    assert_eq!(not.transform("string"), "string");
}

#[test]
fn querying() {
    let mut char_to_u32 = Query::or_else(|| 42, |c: &char| *c as u32);
    assert_eq!(char_to_u32.query(&'a'), 97);
    assert_eq!(char_to_u32.query(&'b'), 98);
    assert_eq!(char_to_u32.query(&vec![1, 2, 3]), 42);
}

#[test]
fn mutating() {
    let mut set_char_to_a = Mutation::new(|c: &mut char| {
        *c = 'a';
        1
    });
    let mut char = 'b';
    assert_eq!(set_char_to_a.mutate(&mut char), 1);
    assert_eq!(char, 'a');

    let mut v = vec![1, 2, 3];
    assert_eq!(set_char_to_a.mutate(&mut v), 0);
}

#[test]
fn query_without_a_fallback_returns_the_empty_value() {
    let mut name = Query::new(|s: &&'static str| Some(*s));
    assert_eq!(name.query(&"Ralf"), Some("Ralf"));
    assert_eq!(name.query(&'R'), None);

    let mut digits = Query::new(|n: &u8| vec![*n / 10, *n % 10]);
    assert_eq!(digits.query(&42u8), vec![4, 2]);
    assert_eq!(digits.query(&42u16), Vec::<u8>::new());
}

#[test]
fn fallbacks_make_their_value() {
    let mut canonical = ByDefault;
    let n: u32 = canonical.make();
    assert_eq!(n, 0);
    let s: Option<char> = canonical.make();
    assert_eq!(s, None);

    let mut made = 0;
    let mut seven = || {
        made += 1;
        7u8
    };
    assert_eq!(seven.make(), 7);
    assert_eq!(seven.make(), 7);
    assert_eq!(made, 2);
}

#[test]
fn the_open_guard_answers_true() {
    let mut anywhere = Anywhere;
    assert_eq!(anywhere.query(&1u8), true);
    assert_eq!(anywhere.query(&"x"), true);
    assert_eq!(anywhere.query(&vec![(1u8, 'c')]), true);
}

#[test]
fn a_lifted_function_is_called_once_for_each_value_of_its_type() {
    let mut calls = 0;
    let mut count = Mutation::or_else(|| 0u32, |_: &mut bool| {
        calls += 1;
        1u32
    });
    let mut flag = true;
    let mut other = 1u8;
    assert_eq!(count.mutate(&mut flag), 1);
    assert_eq!(count.mutate(&mut other), 0);
    assert_eq!(count.mutate(&mut flag), 1);
    assert_eq!(calls, 2);
}

#[test]
fn a_transformation_applies_its_function_where_the_cast_has_passed() {
    let mut not = Transformation::new(|b: bool| !b);
    let mut place = Some(true);
    not.apply(Some(&mut place));
    assert_eq!(place, Some(false));

    let mut empty: Option<bool> = None;
    not.apply(Some(&mut empty));
    assert_eq!(empty, None);

    not.apply(None);
}

#[test]
fn a_query_answers_for_either_outcome_of_the_cast() {
    let mut char_to_u32 = Query::or_else(|| 42, |c: &char| *c as u32);
    assert_eq!(char_to_u32.answer(Some(&'a')), 97);
    assert_eq!(char_to_u32.answer(None), 42);

    let mut len = Query::new(|s: &&'static str| s.len());
    assert_eq!(len.answer(Some(&"four")), 4);
    assert_eq!(len.answer(None), 0);
}

#[test]
fn a_mutation_edits_for_either_outcome_of_the_cast() {
    let mut double = Mutation::or_else(|| -1i64, |n: &mut u8| {
        let was = *n;
        *n *= 2;
        was as i64
    });
    let mut n = 21u8;
    assert_eq!(double.edit(Some(&mut n)), 21);
    assert_eq!(n, 42);
    assert_eq!(double.edit(None), -1);
    assert_eq!(n, 42);

    let (was, _) = double.run(&mut n);
    assert_eq!(was, 42);
    assert_eq!(n, 84);
}

#[test]
fn the_lifted_functions_and_the_traversals_can_be_printed() {
    fn not(b: bool) -> bool {
        !b
    }
    let plain: fn(bool) -> bool = not;
    let everywhere = Everywhere::new(Transformation::new(plain));
    assert_eq!(format!("{:?}", Anywhere), "Anywhere");
    assert_eq!(format!("{:?}", ByDefault), "ByDefault");
    assert!(format!("{:?}", everywhere).starts_with("Everywhere"));
}
