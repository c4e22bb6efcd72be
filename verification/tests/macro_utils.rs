use zeros_tooling::exprs::{
    array_size, callback, callback_foreach, constinit_array, count_exprs, count_idents, identity_expand, max, min, static_max,
    static_min,
};

#[test]
fn callback_test() {
    let array: [usize; 6] = [0, 1, 2, 3, 4, 5];
    assert_eq!(callback(identity_expand, array), array);
    assert_eq!(callback(|a: [usize; 6]| array_size(&a), array), array.len());
    assert_eq!(callback(|a: [usize; 6]| static_max(&a), [1, 2, 3, 4, 5, 6]), 6);
    let doubled = callback_foreach(|x: usize| x * 2, &[1, 2, 3, 4, 5, 6]);
    assert_eq!(doubled.iter().sum::<usize>(), 42);
}

#[test]
fn identity_expand_test() {
    assert_eq!(
        identity_expand("The quick brown fox blah blah blah"),
        "The quick brown fox blah blah blah"
    );
}

#[test]
fn count_exprs_test() {
    assert_eq!(count_exprs(&["1"]), 1);
    assert_eq!(count_exprs(&["1", "2"]), 2);
    assert_eq!(count_exprs(&["1", "2", "3"]), 3);
    assert_eq!(count_exprs(&["1", "2", "3", "4"]), 4);
    let mixed: [&dyn std::fmt::Debug; 5] = [&"1", &"2", &"3", &"4", &5];
    assert_eq!(count_exprs(&mixed), 5);
}

#[test]
fn static_max_test() {
    assert_eq!(static_max(&[0, 8, 18, 2, 4235468, 1]), 4235468);
    assert_eq!(static_max(&[0, 8, 18, 2, 18, 1]), 18);
}

#[test]
fn static_min_test() {
    assert_eq!(static_min(&[0, 8, 18, 2, 4235468, 1]), 0);
    assert_eq!(static_min(&[0, 8, 18, 2, 18, 1]), 0);
}

#[test]
fn max_test() {
    assert_eq!(max(&[0, 8, 18, 2, 4235468, 1]), 4235468);
    assert_eq!(max(&[0, 8, 18, 2, 18, 1]), 18);
}

#[test]
fn min_test() {
    assert_eq!(min(&[0, 8, 18, 2, 4235468, 1]), 0);
    assert_eq!(min(&[0, 8, 18, 2, 18, 1]), 0);
}

#[test]
fn max_and_min_of_nothing_are_zero() {
    assert_eq!(max(&[]), 0);
    assert_eq!(min(&[]), 0);
    assert_eq!(max(&[7]), 7);
    assert_eq!(min(&[7]), 7);
}

#[test]
fn max_is_at_least_every_element_and_min_at_most() {
    let values = [5usize, 3, 9, 1, 9, 4];
    let hi = max(&values);
    let lo = min(&values);
    assert!(values.iter().all(|v| *v <= hi && *v >= lo));
    assert!(values.contains(&hi) && values.contains(&lo));
}

#[test]
fn count_idents_counts() {
    assert_eq!(count_idents::<&str>(&[]), 0);
    assert_eq!(count_idents(&["a", "b", "c"]), 3);
}

#[test]
fn constinit_arrays() {
    let flags = constinit_array(42, || std::sync::atomic::AtomicBool::new(false));
    assert_eq!(flags.len(), 42);
    assert!(flags.into_iter().all(|f| !f.into_inner()));
    assert!(constinit_array(0, || 1u8).is_empty());
}
