use rust101::basics::{fib, findFirstWord, find_largest, find_largest2, test_panic};

#[test]
fn fib_values() {
    assert_eq!(fib(0), 0);
    assert_eq!(fib(1), 1);
    assert_eq!(fib(2), 1);
    assert_eq!(fib(10), 55);
    assert_eq!(fib(46), 1836311903);
}

#[test]
fn fib_of_negative_is_one() {
    assert_eq!(fib(-1), 1);
    assert_eq!(fib(-100), 1);
}

#[test]
fn first_word() {
    assert_eq!(findFirstWord("hello world!"), "hello");
    assert_eq!(findFirstWord("hello"), "hello");
    assert_eq!(findFirstWord(""), "");
    assert_eq!(findFirstWord(" lead"), "");
    assert_eq!(findFirstWord("héllo wörld"), "héllo");
}

#[test]
fn largest_of_integers() {
    let v = vec![1, 2, 12, 3];
    assert_eq!(find_largest(&v), 12);
    assert_eq!(*find_largest2(&v), 12);
    assert_eq!(find_largest(&[5]), 5);
    assert_eq!(find_largest(&[-3, -7, -1]), -1);
}

#[test]
fn largest_of_chars() {
    let v = vec!['y', 'm', 'a', 'q'];
    assert_eq!(find_largest(&v), 'y');
    assert_eq!(*find_largest2(&v), 'y');
}

#[test]
fn largest_keeps_the_first_of_equal_maxima() {
    let v = vec![3, 9, 9, 1];
    let r = find_largest2(&v);
    assert!(std::ptr::eq(r, &v[1]));
}

#[test]
fn test_panic_returns() {
    test_panic();
}
