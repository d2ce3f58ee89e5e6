use fibonacci_transition::fib::fibonacci;
use fibonacci_transition::transition::{run, TransitionError};

#[test]
fn fibonacci_small_indices() {
    assert_eq!(fibonacci(0), (0, 1));
    assert_eq!(fibonacci(1), (1, 1));
    assert_eq!(fibonacci(2), (1, 2));
    assert_eq!(fibonacci(10), (55, 89));
    assert_eq!(fibonacci(20), (6765, 10946));
}

#[test]
fn fibonacci_wraps_at_32_bits() {
    assert_eq!(fibonacci(46), (1836311903, 2971215073));
    // The next term, 4807526976, wraps modulo 2^32.
    assert_eq!(fibonacci(47), (2971215073, 512559680));
}

#[test]
fn execute_with_zero_offset_has_no_root() {
    // n = 20, offset = 0: the raw Fibonacci pair, no insertion, root absent.
    let pv = run(20, 0).expect("transition must succeed");
    assert_eq!(pv.n, 20);
    assert_eq!(pv.a, 6765);
    assert_eq!(pv.b, 10946);
    assert_eq!(pv.root, None);
}

#[test]
fn execute_with_offset_shifts_both_values() {
    // n = 10, offset = 5: both values shifted by 5, five insertions, root present.
    let pv = run(10, 5).expect("transition must succeed");
    assert_eq!(pv.n, 10);
    assert_eq!(pv.a, 60);
    assert_eq!(pv.b, 94);
    let root = pv.root.expect("root must be present");
    assert_eq!(root.len(), 32);
}

#[test]
fn repeated_insertion_is_idempotent() {
    // Two runs that bind the same key to the same leaf byte (1 + 5 == 5 + 1),
    // once with five insertions and once with a single one: the committed
    // roots must coincide, because re-inserting an existing binding leaves
    // the root unchanged.
    let five = run(0, 5).expect("transition must succeed");
    let one = run(4, 1).expect("transition must succeed");
    assert_eq!(five.b % 256, one.b % 256);
    assert!(five.root.is_some());
    assert_eq!(five.root, one.root);
}

#[test]
fn run_is_deterministic() {
    let first = run(10, 5).expect("transition must succeed");
    let second = run(10, 5).expect("transition must succeed");
    assert_eq!(first, second);
}

#[test]
fn offset_overflow_aborts_the_run() {
    // fibonacci(47).0 + 1_400_000_000 leaves the 32-bit range.
    assert_eq!(run(47, 1_400_000_000), Err(TransitionError::ArithmeticOverflow));
    // 1 + u32::MAX overflows on the second value alone.
    assert_eq!(run(0, u32::MAX), Err(TransitionError::ArithmeticOverflow));
}

#[test]
fn large_values_without_overflow_succeed() {
    // n = 46 gives the largest unwrapped pair; a unit offset stays in range.
    let pv = run(46, 1).expect("transition must succeed");
    assert_eq!(pv.a, 1836311904);
    assert_eq!(pv.b, 2971215074);
    assert!(pv.root.is_some());
}
