use graphed::sorts::{insertion_sort, merge_sort, shell_sort};

fn samples() -> Vec<Vec<u32>> {
    vec![
        vec![],
        vec![7],
        vec![2, 1],
        vec![1, 2],
        vec![3, 1, 2],
        vec![5, 5, 5, 5],
        vec![7, 6, 5, 4, 3, 2, 1, 0],
        vec![5, 1, 4, 2, 3],
        vec![0, u32::MAX, 17, 17, 3, u32::MAX, 0],
        vec![9, 8, 7, 6, 5, 4, 3, 2, 1, 0, 10, 11, 4, 4],
        (0..257u32).map(|i| (i * 7919) % 263).collect(),
    ]
}

fn check(sort: fn(&mut Vec<u32>)) {
    for sample in samples() {
        let mut wanted = sample.clone();
        wanted.sort();
        let mut values = sample.clone();
        sort(&mut values);
        assert_eq!(values, wanted, "from {:?}", sample);
    }
}

#[test]
fn insertion_sort_puts_values_in_order() {
    check(insertion_sort);
}

#[test]
fn shell_sort_puts_values_in_order() {
    check(shell_sort);
}

#[test]
fn merge_sort_puts_values_in_order() {
    check(merge_sort);
}

#[test]
fn the_three_sorts_agree_on_a_fixed_example() {
    let start = vec![40, 10, 30, 10, 20];
    let mut a = start.clone();
    let mut b = start.clone();
    let mut c = start.clone();
    insertion_sort(&mut a);
    shell_sort(&mut b);
    merge_sort(&mut c);
    assert_eq!(a, vec![10, 10, 20, 30, 40]);
    assert_eq!(b, vec![10, 10, 20, 30, 40]);
    assert_eq!(c, vec![10, 10, 20, 30, 40]);
}
