use ring_buffers::buffer::RingBuffer;
use ring_buffers::traits::Buffer;

fn collect_values<const N: usize>(b: &RingBuffer<i32, N>) -> Vec<i32> {
    let mut it = b.iter();
    let mut out = Vec::new();
    while let Some(v) = it.next() {
        out.push(*v);
    }
    out
}

fn collect_windows<const N: usize, const W: usize>(b: &RingBuffer<i32, N>) -> Vec<Vec<i32>> {
    let mut it = b.windows::<W>();
    let mut out = Vec::new();
    while let Some(w) = it.next() {
        out.push(w.iter().map(|x| **x).collect());
    }
    out
}

#[test]
fn push_pop_ring_buffer() {
    let mut ring_buff: RingBuffer<i32, 4> = RingBuffer::new();
    ring_buff.push(1).unwrap();
    ring_buff.push(2).unwrap();
    ring_buff.push(3).unwrap();

    assert_eq!(ring_buff.pop(), Some(1));
    assert_eq!(ring_buff.pop(), Some(2));
    assert_eq!(ring_buff.pop(), Some(3));
    assert_eq!(ring_buff.pop(), None);
}

#[test]
fn buffer_full() {
    let mut ring_buff: RingBuffer<i32, 2> = RingBuffer::new();
    assert!(ring_buff.push(1).is_ok());
    assert!(ring_buff.push(2).is_ok());
    assert!(ring_buff.push(3).is_err());
}

#[test]
fn wrap_around() {
    let mut ring_buff: RingBuffer<i32, 2> = RingBuffer::new();
    ring_buff.push(1).unwrap();
    ring_buff.push(2).unwrap();
    ring_buff.pop();
    ring_buff.push(3).unwrap();

    assert_eq!(ring_buff.pop(), Some(2));
    assert_eq!(ring_buff.pop(), Some(3));
}

#[test]
fn iterate_in_order() {
    let mut ring_buff: RingBuffer<i32, 3> = RingBuffer::new();
    ring_buff.push(10).unwrap();
    ring_buff.push(20).unwrap();
    ring_buff.push(30).unwrap();
    let collected = collect_values(&ring_buff);
    assert_eq!(collected, vec![10, 20, 30])
}

#[test]
fn windows_basic() {
    let mut ring_buff: RingBuffer<i32, 5> = RingBuffer::new();

    ring_buff.push(1).unwrap();
    ring_buff.push(2).unwrap();
    ring_buff.push(3).unwrap();
    ring_buff.push(4).unwrap();

    let windows = collect_windows::<5, 3>(&ring_buff);

    assert_eq!(windows, vec![vec![1, 2, 3], vec![2, 3, 4]]);
}

#[test]
fn windows_exact_fit() {
    let mut ring_buff: RingBuffer<i32, 4> = RingBuffer::new();

    ring_buff.push(10).unwrap();
    ring_buff.push(20).unwrap();
    ring_buff.push(30).unwrap();

    let windows = collect_windows::<4, 3>(&ring_buff);
    assert_eq!(windows, vec![vec![10, 20, 30]]);
}

#[test]
fn windows_wraparound() {
    let mut ring_buff: RingBuffer<i32, 4> = RingBuffer::new();

    ring_buff.push(1).unwrap();
    ring_buff.push(2).unwrap();
    ring_buff.push(3).unwrap();
    ring_buff.pop();
    ring_buff.push(4).unwrap();
    ring_buff.push(5).unwrap();

    let windows = collect_windows::<4, 2>(&ring_buff);

    assert_eq!(windows, vec![vec![2, 3], vec![3, 4], vec![4, 5]]);
}

#[test]
fn windows_size_one() {
    let mut ring_buff: RingBuffer<i32, 3> = RingBuffer::new();

    ring_buff.push(7).unwrap();
    ring_buff.push(8).unwrap();

    let mut it = ring_buff.windows::<1>();
    let mut windows: Vec<i32> = Vec::new();
    while let Some(w) = it.next() {
        windows.push(*w[0]);
    }

    assert_eq!(windows, vec![7, 8]);
    assert_eq!(windows, collect_values(&ring_buff));
}

#[test]
fn windows_do_not_consume_buffer() {
    let mut ring_buff: RingBuffer<i32, 4> = RingBuffer::new();

    ring_buff.push(1).unwrap();
    ring_buff.push(2).unwrap();
    ring_buff.push(3).unwrap();

    let _ = collect_windows::<4, 2>(&ring_buff);

    assert_eq!(ring_buff.len(), 3);
    assert_eq!(ring_buff.pop(), Some(1));
}

#[test]
fn full_push_hands_value_back_and_keeps_contents() {
    let mut b: RingBuffer<i32, 3> = RingBuffer::new();
    b.push(4).unwrap();
    b.push(5).unwrap();
    b.push(6).unwrap();
    assert!(b.is_full());
    assert_eq!(b.push(7), Err(7));
    assert_eq!(b.len(), 3);
    assert_eq!(collect_values(&b), vec![4, 5, 6]);
}

#[test]
fn interleaved_pushes_and_pops_keep_order() {
    let mut b: RingBuffer<i32, 3> = RingBuffer::new();
    let mut out = Vec::new();
    for v in 1..=10 {
        if b.is_full() {
            out.push(b.pop().unwrap());
        }
        b.push(v).unwrap();
    }
    while let Some(v) = b.pop() {
        out.push(v);
    }
    assert_eq!(out, (1..=10).collect::<Vec<i32>>());
}

#[test]
fn capacity_two_wrap_around_sequence() {
    let mut b: RingBuffer<i32, 2> = RingBuffer::new();
    b.push(1).unwrap();
    b.push(2).unwrap();
    assert_eq!(b.pop(), Some(1));
    b.push(3).unwrap();
    assert_eq!(b.pop(), Some(2));
    assert_eq!(b.pop(), Some(3));
    assert_eq!(b.pop(), None);
}

#[test]
fn empty_buffer_state() {
    let mut b: RingBuffer<i32, 2> = RingBuffer::new();
    assert!(b.is_empty());
    assert!(!b.is_full());
    assert_eq!(b.len(), 0);
    assert_eq!(b.capacity(), 2);
    assert_eq!(b.pop(), None);
    assert!(collect_values(&b).is_empty());
}

#[test]
fn iteration_does_not_consume_buffer() {
    let mut b: RingBuffer<i32, 4> = RingBuffer::new();
    b.push(1).unwrap();
    b.push(2).unwrap();
    b.pop();
    b.push(3).unwrap();
    b.push(4).unwrap();
    b.push(5).unwrap();
    assert_eq!(collect_values(&b), vec![2, 3, 4, 5]);
    assert_eq!(collect_values(&b), vec![2, 3, 4, 5]);
    assert_eq!(b.len(), 4);
    assert_eq!(b.pop(), Some(2));
}

#[test]
fn window_as_wide_as_contents_after_wrap() {
    let mut b: RingBuffer<i32, 3> = RingBuffer::new();
    b.push(1).unwrap();
    b.push(2).unwrap();
    b.pop();
    b.push(3).unwrap();
    b.push(4).unwrap();
    assert_eq!(collect_windows::<3, 3>(&b), vec![vec![2, 3, 4]]);
}
