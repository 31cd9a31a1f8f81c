use drone_core::series::push_bounded;

#[test]
fn keeps_the_last_samples() {
    let mut v = Vec::new();
    for i in 0..10 {
        push_bounded(&mut v, i, 4);
    }
    assert_eq!(v, vec![6, 7, 8, 9]);
}

#[test]
fn under_the_bound_nothing_is_dropped() {
    let mut v = vec![[0.0f64, 1.0]];
    push_bounded(&mut v, [1.0, 2.0], 10_000);
    assert_eq!(v, vec![[0.0, 1.0], [1.0, 2.0]]);
}

#[test]
fn overlong_history_is_trimmed_to_the_bound() {
    let mut v: Vec<u32> = (0..8).collect();
    push_bounded(&mut v, 8, 3);
    assert_eq!(v, vec![6, 7, 8]);
    push_bounded(&mut v, 9, 0);
    assert!(v.is_empty());
}
