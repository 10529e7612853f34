use tracing_eventlog::demo::{fibonacci_seq, fits, nth_fibonacci, LAST_INDEX};

#[test]
fn first_fibonacci_numbers() {
    assert_eq!(nth_fibonacci(0), 1);
    assert_eq!(nth_fibonacci(1), 1);
    assert_eq!(nth_fibonacci(2), 2);
    assert_eq!(nth_fibonacci(5), 8);
    assert_eq!(nth_fibonacci(20), 10946);
}

#[test]
fn fibonacci_sequence_to_five() {
    assert_eq!(fibonacci_seq(5), vec![1, 1, 2, 3, 5, 8]);
    assert_eq!(fibonacci_seq(0), vec![1]);
}

#[test]
fn fibonacci_fits_up_to_the_last_index() {
    assert_eq!(LAST_INDEX, 92);
    assert!(fits(0));
    assert!(fits(92));
    assert!(!fits(93));
    assert!(!fits(u64::MAX));
    // The number with the last index, by the sum that the numbers obey.
    let (mut earlier, mut later) = (1u64, 1u64);
    for _ in 2..=92 {
        let next = earlier + later;
        earlier = later;
        later = next;
    }
    assert_eq!(later, 12200160415121876738);
    assert!(earlier.checked_add(later).is_none());
}
