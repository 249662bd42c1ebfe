use simplefb_console::LogBuffer;

fn contents(b: &LogBuffer) -> Vec<u8> {
    b.to_vec()
}

#[test]
fn eviction_keeps_last_capacity_bytes() {
    let mut b = LogBuffer::new(4);
    b.push_bytes(b"abcdef");
    assert_eq!(b.len(), 4);
    assert_eq!(contents(&b), b"cdef".to_vec());
}

#[test]
fn under_capacity_keeps_all_in_order() {
    let mut b = LogBuffer::new(8);
    b.push_bytes(b"xyz");
    assert_eq!(b.len(), 3);
    assert_eq!(contents(&b), b"xyz".to_vec());
}

#[test]
fn exactly_capacity_keeps_all() {
    let mut b = LogBuffer::new(3);
    b.push_bytes(b"xyz");
    assert_eq!(contents(&b), b"xyz".to_vec());
    b.push(b'w');
    assert_eq!(contents(&b), b"yzw".to_vec());
}

#[test]
fn zero_capacity_stays_empty() {
    let mut b = LogBuffer::new(0);
    assert!(b.is_empty());
    b.push_bytes(b"");
    assert!(b.is_empty());
    b.push(7);
    b.push_bytes(b"hello");
    assert!(b.is_empty());
    assert_eq!(b.len(), 0);
    assert_eq!(contents(&b), Vec::<u8>::new());
}

#[test]
fn iterator_yields_oldest_first_and_restarts() {
    let mut b = LogBuffer::new(3);
    b.push_bytes(&[1, 2, 3, 4, 5]);
    let mut it = b.iter();
    assert_eq!(it.next(), Some(3));
    assert_eq!(it.next(), Some(4));
    assert_eq!(it.next(), Some(5));
    assert_eq!(it.next(), None);
    assert_eq!(it.next(), None);
    let mut again = b.iter();
    assert_eq!(again.next(), Some(3));
    assert_eq!(b.len(), 3);
}

#[test]
fn long_wraparound_matches_last_bytes() {
    let mut b = LogBuffer::new(5);
    let data: Vec<u8> = (0u8..=40).collect();
    b.push_bytes(&data);
    assert_eq!(contents(&b), vec![36, 37, 38, 39, 40]);
    assert!(!b.is_empty());
}
