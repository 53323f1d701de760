use brotli_cli::{retry_decision, HeapAllocator, IoAttempt, Rebox, RetryDecision};

#[test]
fn rebox_from_vec_keeps_the_elements() {
    let b = Rebox::from(vec![3u8, 1, 4]);
    assert_eq!(b.len(), 3);
    assert_eq!(*b.index(0), 3);
    assert_eq!(*b.index(2), 4);
    assert_eq!(b.slice(), &[3u8, 1, 4][..]);
    assert_eq!(b.into_vec(), vec![3u8, 1, 4]);
}

#[test]
fn rebox_default_is_empty() {
    let b: Rebox<u32> = Rebox::default();
    assert_eq!(b.len(), 0);
    assert!(b.slice().is_empty());
}

#[test]
fn rebox_index_mut_changes_one_element() {
    let mut b = Rebox::from(vec![1u16, 2, 3]);
    *b.index_mut(1) = 20;
    assert_eq!(b.slice(), &[1u16, 20, 3][..]);
    *b.index_mut(0) = 10;
    *b.index_mut(0) = 11;
    assert_eq!(b.len(), 3);
    assert_eq!(b.slice(), &[11u16, 20, 3][..]);
    b.slice_mut()[2] = 30;
    assert_eq!(b.slice_mut().len(), 3);
    assert_eq!(b.into_vec(), vec![11u16, 20, 30]);
}

#[test]
fn alloc_cell_fills_with_the_default_value() {
    let mut a = HeapAllocator::<u32> { default_value: 7 };
    let cell = a.alloc_cell(4);
    assert_eq!(cell.slice(), &[7u32, 7, 7, 7][..]);
    a.free_cell(cell);
    assert_eq!(a.default_value, 7);
    let empty = a.alloc_cell(0);
    assert_eq!(empty.len(), 0);
}

#[test]
fn alloc_cell_of_bytes_is_zeroed() {
    let mut a = HeapAllocator::<u8> { default_value: 0 };
    let cell = a.alloc_cell(65536);
    assert_eq!(cell.len(), 65536);
    assert!(cell.slice().iter().all(|b| *b == 0));
}

#[test]
fn interrupted_calls_are_retried() {
    assert_eq!(retry_decision(IoAttempt::Interrupted), RetryDecision::TryAgain);
    assert_eq!(retry_decision(IoAttempt::Completed(0)), RetryDecision::Deliver);
    assert_eq!(retry_decision(IoAttempt::Completed(4096)), RetryDecision::Deliver);
    assert_eq!(retry_decision(IoAttempt::Failed), RetryDecision::Deliver);
}
