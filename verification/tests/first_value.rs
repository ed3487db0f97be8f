use ttt::first_value::{
    first_value, first_value_a, first_value_b, first_value_c, first_value_d, first_value_e, flatten,
};

#[test]
fn it_works_a() {
    assert_eq!(first_value_a(vec![None, Some(1), Some(2)], 100), 1)
}

#[test]
fn it_works_b() {
    assert_eq!(first_value_b(vec![None, Some(1), Some(2)], 100), 1)
}

#[test]
fn it_works_c() {
    assert_eq!(first_value_c(vec![None, Some(1), Some(2)], 100), 1)
}

#[test]
fn it_works_d() {
    assert_eq!(first_value_d(vec![None, Some(1), Some(2)], 100), 1)
}

#[test]
fn it_works_e() {
    assert_eq!(first_value_e(vec![None, Some(1), Some(2)], 100), 1)
}

#[test]
fn foo() {
    assert_eq!(first_value(vec![Some(1), Some(2), None], 100), 1);
    assert_eq!(first_value(vec![None, None, Some(1), Some(2)], 100), 1);
}

#[test]
fn empty_list_gives_default() {
    let none: Vec<Option<i32>> = Vec::new();
    assert_eq!(first_value(none.clone(), 100), 100);
    assert_eq!(first_value_a(none.clone(), 100), 100);
    assert_eq!(first_value_b(none.clone(), 100), 100);
    assert_eq!(first_value_c(none.clone(), 100), 100);
    assert_eq!(first_value_d(none.clone(), 100), 100);
    assert_eq!(first_value_e(none, 100), 100);
}

#[test]
fn all_gaps_give_default() {
    let gaps: Vec<Option<i32>> = vec![None, None, None];
    assert_eq!(first_value(gaps.clone(), 7), 7);
    assert_eq!(first_value_a(gaps.clone(), 7), 7);
    assert_eq!(first_value_b(gaps.clone(), 7), 7);
    assert_eq!(first_value_c(gaps.clone(), 7), 7);
    assert_eq!(first_value_d(gaps.clone(), 7), 7);
    assert_eq!(first_value_e(gaps, 7), 7);
}

#[test]
fn later_values_do_not_count() {
    let values = vec![None, Some(3), None, Some(4), Some(5), None];
    assert_eq!(first_value(values.clone(), 0), 3);
    assert_eq!(first_value_a(values.clone(), 0), 3);
    assert_eq!(first_value_b(values.clone(), 0), 3);
    assert_eq!(first_value_c(values.clone(), 0), 3);
    assert_eq!(first_value_d(values.clone(), 0), 3);
    assert_eq!(first_value_e(values, 0), 3);
}

#[test]
fn a_value_equal_to_the_default_is_still_found() {
    assert_eq!(first_value_d(vec![Some(100), Some(1)], 100), 100);
    assert_eq!(first_value_e(vec![None, Some(100), Some(1)], 1), 100);
}

#[test]
fn all_ways_agree() {
    let lists: Vec<Vec<Option<u8>>> = vec![
        vec![],
        vec![None],
        vec![Some(9)],
        vec![Some(1), None],
        vec![None, Some(2)],
        vec![None, None, Some(3), None, Some(4)],
        vec![Some(5), Some(6), Some(7)],
    ];
    for list in lists {
        let expected = first_value(list.clone(), 42);
        assert_eq!(first_value_a(list.clone(), 42), expected);
        assert_eq!(first_value_b(list.clone(), 42), expected);
        assert_eq!(first_value_c(list.clone(), 42), expected);
        assert_eq!(first_value_d(list.clone(), 42), expected);
        assert_eq!(first_value_e(list, 42), expected);
    }
}

#[test]
fn flatten_keeps_present_values_in_order() {
    assert_eq!(flatten(&vec![None, Some(1), None, Some(2), Some(3)]), vec![1, 2, 3]);
    assert_eq!(flatten(&vec![None::<i32>, None]), Vec::<i32>::new());
    assert_eq!(flatten(&Vec::<Option<i32>>::new()), Vec::<i32>::new());
}
