use nvm_bevyutil::container::RingBuffer;

#[test]
fn new_buffer_is_empty() {
    let buffer = RingBuffer::<u32>::new(3);
    assert_eq!(buffer.len(), 0);
    assert!(buffer.is_empty());
    assert!(!buffer.is_full());
    assert_eq!(buffer.peek(), None);
    assert_eq!(buffer.get_forward_length(), None);
}

#[test]
fn items_leave_in_the_order_they_came() {
    let mut buffer = RingBuffer::<u32>::new(3);
    assert!(buffer.push(10));
    assert!(buffer.push(20));
    assert_eq!(buffer.len(), 2);
    assert_eq!(buffer.get_forward_length(), Some(2));
    assert_eq!(buffer.peek(), Some(&10));
    assert!(buffer.push(30));
    assert!(buffer.is_full());
    assert!(!buffer.push(40));
    assert_eq!(buffer.len(), 3);
    assert_eq!(buffer.pop(), Some(10));
    assert_eq!(buffer.pop(), Some(20));
    assert!(buffer.push(40));
    assert!(buffer.push(50));
    assert!(buffer.is_full());
    assert_eq!(buffer.pop(), Some(30));
    assert_eq!(buffer.pop(), Some(40));
    assert_eq!(buffer.pop(), Some(50));
    assert_eq!(buffer.pop(), None);
    assert!(buffer.is_empty());
}

#[test]
fn length_counts_one_less_once_wrapped() {
    let mut buffer = RingBuffer::<u8>::new(3);
    for v in [1, 2, 3] {
        buffer.push(v);
    }
    assert!(buffer.advance_head());
    assert!(buffer.advance_head());
    // head 2, tail 3
    assert_eq!(buffer.len(), 1);
    assert!(buffer.push(4));
    // head 2, tail 0: two items, and the tail has wrapped.
    assert_eq!(buffer.len(), 1);
    assert_eq!(buffer.get_forward_length(), None);
    assert!(buffer.push(5));
    assert_eq!(buffer.len(), 2);
    assert!(buffer.is_full());
    assert_eq!(buffer.pop(), Some(3));
    assert_eq!(buffer.pop(), Some(4));
    assert_eq!(buffer.pop(), Some(5));
    assert!(!buffer.advance_head());
}

#[test]
fn a_buffer_for_nothing_is_empty_and_full() {
    let mut buffer = RingBuffer::<u8>::new(0);
    assert!(buffer.is_empty());
    assert!(buffer.is_full());
    assert!(!buffer.push(1));
    assert_eq!(buffer.pop(), None);
}

#[test]
fn unchecked_calls_on_a_buffer_in_use() {
    let mut buffer = RingBuffer::<u8>::new(u16::MAX);
    buffer.push_unchecked(7);
    buffer.push_unchecked(8);
    assert_eq!(*buffer.peek_unchecked(), 7);
    buffer.advance_head_unchecked();
    assert_eq!(buffer.pop_unchecked(), 8);
    assert!(buffer.is_empty());
}
