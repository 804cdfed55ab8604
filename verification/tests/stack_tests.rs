use scheduler::stack::{BidirectionalStack, StackError};

#[test]
fn test_push_pop_front() {
    let mut stack = BidirectionalStack::<10>::new();
    assert!(stack.is_empty_front());

    stack.push_front(&[1, 2, 3]).unwrap();
    assert!(!stack.is_empty_front());

    let data = stack.pop_front().unwrap();
    assert_eq!(data, vec![1, 2, 3]);
    assert!(stack.is_empty_front());
}

#[test]
fn test_push_pop_back() {
    let mut stack = BidirectionalStack::<10>::new();
    assert!(stack.is_empty_back());

    stack.push_back(&[1, 2, 3]).unwrap();
    assert!(!stack.is_empty_back());

    let data = stack.pop_back().unwrap();
    assert_eq!(data, vec![1, 2, 3]);
    assert!(stack.is_empty_back());
}

#[test]
fn test_capacity() {
    let mut stack = BidirectionalStack::<5>::new();

    stack.push_front(&[1, 2]).unwrap();

    assert_eq!(stack.available_capacity(), 2);
    assert!(stack.push_front(&[3, 4]).is_err());
    assert!(stack.push_front(&[3]).is_ok());
}

#[test]
fn test_bidirectional() {
    let mut stack = BidirectionalStack::<10>::new();

    stack.push_front(&[1, 2]).unwrap();
    stack.push_back(&[3, 4]).unwrap();

    let front_data = stack.pop_front().unwrap();
    let back_data = stack.pop_back().unwrap();

    assert_eq!(front_data, vec![1, 2]);
    assert_eq!(back_data, vec![3, 4]);
}

#[test]
fn test_clear() {
    let mut stack = BidirectionalStack::<10>::new();

    stack.push_front(&[1, 2]).unwrap();
    stack.push_back(&[3, 4]).unwrap();

    assert!(!stack.is_empty());

    stack.clear();

    assert!(stack.is_empty());
    assert!(stack.is_empty_front());
    assert!(stack.is_empty_back());
}

#[test]
fn round_trip_restores_the_cursors() {
    let mut stack = BidirectionalStack::<600>::new();
    let payload: Vec<u8> = (0..=254u8).collect();
    assert_eq!(payload.len(), 255);

    stack.push_front(&payload).unwrap();
    assert_eq!(stack.available_capacity(), 600 - 256);
    assert_eq!(stack.pop_front().unwrap(), payload);
    assert_eq!(stack.available_capacity(), 600);
    assert!(stack.is_empty_front());

    stack.push_back(&payload).unwrap();
    assert_eq!(stack.available_capacity(), 600 - 256);
    assert_eq!(stack.pop_back().unwrap(), payload);
    assert_eq!(stack.available_capacity(), 600);
    assert!(stack.is_empty_back());
}

#[test]
fn empty_payload_takes_one_byte() {
    let mut stack = BidirectionalStack::<2>::new();
    stack.push_front(&[]).unwrap();
    stack.push_back(&[]).unwrap();
    assert_eq!(stack.available_capacity(), 0);
    assert_eq!(stack.push_front(&[]), Err(StackError::InsufficientCapacity));
    assert_eq!(stack.pop_back().unwrap(), Vec::<u8>::new());
    assert_eq!(stack.pop_front().unwrap(), Vec::<u8>::new());
    assert!(stack.is_empty());
}

#[test]
fn oversized_payload_is_reported_before_lack_of_room() {
    let mut stack = BidirectionalStack::<4>::new();
    let payload = vec![7u8; 256];
    assert_eq!(stack.push_front(&payload), Err(StackError::DataTooLarge));
    assert_eq!(stack.push_back(&payload), Err(StackError::DataTooLarge));
    assert_eq!(stack.available_capacity(), 4);
    assert!(stack.is_empty());
}

#[test]
fn payload_as_long_as_the_gap_is_refused() {
    let mut stack = BidirectionalStack::<8>::new();
    stack.push_back(&[9, 9, 9]).unwrap();
    assert_eq!(stack.available_capacity(), 4);

    // Four bytes are left: a payload of four has no room for its length byte.
    assert_eq!(stack.push_front(&[1, 2, 3, 4]), Err(StackError::InsufficientCapacity));
    assert_eq!(stack.push_back(&[1, 2, 3, 4]), Err(StackError::InsufficientCapacity));
    assert_eq!(stack.available_capacity(), 4);
    assert!(stack.is_empty_front());

    // A payload of three fits exactly.
    stack.push_front(&[1, 2, 3]).unwrap();
    assert_eq!(stack.available_capacity(), 0);
    assert_eq!(stack.pop_back().unwrap(), vec![9, 9, 9]);
    assert_eq!(stack.pop_front().unwrap(), vec![1, 2, 3]);
}

#[test]
fn frames_come_back_newest_first() {
    let mut stack = BidirectionalStack::<32>::new();
    stack.push_front(&[1]).unwrap();
    stack.push_front(&[2, 2]).unwrap();
    assert_eq!(stack.pop_front().unwrap(), vec![2, 2]);
    assert_eq!(stack.pop_front().unwrap(), vec![1]);
    assert_eq!(stack.pop_front(), Err(StackError::Underflow));

    stack.push_back(&[3]).unwrap();
    stack.push_back(&[4, 4]).unwrap();
    assert_eq!(stack.pop_back().unwrap(), vec![4, 4]);
    assert_eq!(stack.pop_back().unwrap(), vec![3]);
    assert_eq!(stack.pop_back(), Err(StackError::Underflow));
}

#[test]
fn interleaved_pushes_keep_both_stacks_apart() {
    let mut stack = BidirectionalStack::<16>::new();
    stack.push_front(&[1, 1]).unwrap();
    stack.push_back(&[2]).unwrap();
    stack.push_front(&[3]).unwrap();
    stack.push_back(&[4, 4, 4]).unwrap();
    assert_eq!(stack.available_capacity(), 16 - 3 - 2 - 2 - 4);

    assert_eq!(stack.peek_front().unwrap(), vec![3]);
    assert_eq!(stack.pop_back().unwrap(), vec![4, 4, 4]);
    assert_eq!(stack.pop_front().unwrap(), vec![3]);
    assert_eq!(stack.pop_front().unwrap(), vec![1, 1]);
    assert_eq!(stack.pop_back().unwrap(), vec![2]);
    assert!(stack.is_empty());
}

#[test]
fn a_stack_without_capacity_takes_nothing() {
    let mut stack = BidirectionalStack::<0>::new();
    assert!(stack.is_empty());
    assert_eq!(stack.available_capacity(), 0);
    assert_eq!(stack.push_front(&[]), Err(StackError::InsufficientCapacity));
    assert_eq!(stack.pop_back(), Err(StackError::Underflow));
}

#[test]
fn stack_error_texts() {
    assert_eq!(StackError::InsufficientCapacity.message(), "Not enough space in BidirectionalStack");
    assert_eq!(StackError::DataTooLarge.message(), "Data size exceeds maximum allowed length");
    assert_eq!(
        StackError::Underflow.message(),
        "Stack underflow - attempted to read from empty stack"
    );
}
