use std::collections::VecDeque;

use fft_convolution::dtype::{ChunkedBuffer, RingBuffer};

fn filled(capacity: usize, items: &[u32]) -> RingBuffer<u32> {
    let mut buffer = RingBuffer::new(capacity);
    for item in items {
        buffer.push_back(*item);
    }
    buffer
}

fn contents(buffer: &RingBuffer<u32>) -> Vec<u32> {
    buffer.inner().iter().copied().collect()
}

#[test]
fn new_buffer_is_empty() {
    let buffer: RingBuffer<u32> = RingBuffer::new(4);
    assert_eq!(buffer.len(), 0);
    assert!(buffer.is_empty());
    assert_eq!(buffer.capacity(), 4);
    assert_eq!(buffer.front(), None);
    assert_eq!(buffer.back(), None);
}

#[test]
fn push_back_evicts_the_oldest() {
    let mut buffer = filled(3, &[1, 2, 3]);
    assert_eq!(contents(&buffer), vec![1, 2, 3]);
    buffer.push_back(4);
    assert_eq!(contents(&buffer), vec![2, 3, 4]);
    buffer.push_back(5);
    assert_eq!(contents(&buffer), vec![3, 4, 5]);
    assert_eq!(buffer.len(), 3);
    assert_eq!(buffer.capacity(), 3);
}

#[test]
fn push_front_evicts_the_newest() {
    let mut buffer: RingBuffer<u32> = RingBuffer::new(3);
    buffer.push_front(1);
    buffer.push_front(2);
    buffer.push_front(3);
    assert_eq!(contents(&buffer), vec![3, 2, 1]);
    buffer.push_front(4);
    assert_eq!(contents(&buffer), vec![4, 3, 2]);
    assert_eq!(buffer.len(), 3);
}

#[test]
fn pushes_at_both_ends_stay_within_capacity() {
    let mut buffer: RingBuffer<u32> = RingBuffer::new(2);
    for item in 0..20 {
        if item % 3 == 0 {
            buffer.push_front(item);
        } else {
            buffer.push_back(item);
        }
        assert!(buffer.len() <= 2);
        assert_eq!(buffer.len(), buffer.inner().len());
    }
    assert_eq!(contents(&buffer), vec![16, 19]);
}

#[test]
fn zero_capacity_ignores_pushes() {
    let mut buffer: RingBuffer<u32> = RingBuffer::new(0);
    buffer.push_back(1);
    buffer.push_front(2);
    assert_eq!(buffer.len(), 0);
    assert_eq!(buffer.pop_front(), None);
    assert_eq!(buffer.pop_back(), None);
    assert_eq!(buffer.front(), None);
    assert_eq!(buffer.back(), None);
    assert_eq!(buffer.front_n(0), None);
    assert_eq!(buffer.back_n(0), None);
    assert!(buffer.front_mut().is_none());
    assert!(buffer.back_mut().is_none());
    buffer.fill_back(7);
    buffer.initialize_again(7);
    assert_eq!(buffer.len(), 0);
}

#[test]
fn pops_take_from_either_end() {
    let mut buffer = filled(4, &[1, 2, 3, 4]);
    assert_eq!(buffer.pop_front(), Some(1));
    assert_eq!(buffer.pop_back(), Some(4));
    assert_eq!(contents(&buffer), vec![2, 3]);
    assert_eq!(buffer.len(), 2);
    assert_eq!(buffer.pop_front(), Some(2));
    assert_eq!(buffer.pop_front(), Some(3));
    assert_eq!(buffer.pop_front(), None);
    assert_eq!(buffer.pop_back(), None);
    assert!(buffer.is_empty());
    assert_eq!(buffer.capacity(), 4);
}

#[test]
fn peeks_count_from_either_end() {
    let buffer = filled(5, &[10, 20, 30]);
    assert_eq!(buffer.front(), Some(&10));
    assert_eq!(buffer.back(), Some(&30));
    assert_eq!(buffer.front_n(0), Some(&10));
    assert_eq!(buffer.front_n(1), Some(&20));
    assert_eq!(buffer.front_n(2), Some(&30));
    assert_eq!(buffer.front_n(3), None);
    assert_eq!(buffer.back_n(0), Some(&30));
    assert_eq!(buffer.back_n(1), Some(&20));
    assert_eq!(buffer.back_n(2), Some(&10));
    assert_eq!(buffer.back_n(3), None);
    assert_eq!(buffer.len(), 3);
}

#[test]
fn mutable_peeks_write_one_item() {
    let mut buffer = filled(5, &[10, 20, 30]);
    *buffer.front_mut().unwrap() += 1;
    assert_eq!(contents(&buffer), vec![11, 20, 30]);
    *buffer.back_mut().unwrap() = 99;
    assert_eq!(contents(&buffer), vec![11, 20, 99]);
    assert_eq!(buffer.len(), 3);
    let mut empty: RingBuffer<u32> = RingBuffer::new(2);
    assert!(empty.front_mut().is_none());
    assert!(empty.back_mut().is_none());
}

#[test]
fn mutable_peek_of_a_single_item() {
    let mut buffer = filled(3, &[5]);
    *buffer.back_mut().unwrap() = 6;
    assert_eq!(buffer.front(), Some(&6));
    *buffer.front_mut().unwrap() = 7;
    assert_eq!(buffer.back(), Some(&7));
}

#[test]
fn inner_mut_changes_items_in_place() {
    let mut buffer = filled(3, &[1, 2, 3]);
    for item in buffer.inner_mut().iter_mut() {
        *item *= 10;
    }
    assert_eq!(contents(&buffer), vec![10, 20, 30]);
    assert_eq!(buffer.len(), 3);
    buffer.push_back(40);
    assert_eq!(contents(&buffer), vec![20, 30, 40]);
}

#[test]
fn drain_removes_a_range() {
    let mut buffer = filled(6, &[1, 2, 3, 4, 5]);
    assert_eq!(buffer.drain(1..3), vec![2, 3]);
    assert_eq!(contents(&buffer), vec![1, 4, 5]);
    assert_eq!(buffer.len(), 3);
    assert_eq!(buffer.capacity(), 6);
    assert_eq!(buffer.drain(0..0), Vec::<u32>::new());
    assert_eq!(buffer.drain(3..3), Vec::<u32>::new());
    assert_eq!(contents(&buffer), vec![1, 4, 5]);
    assert_eq!(buffer.drain(0..3), vec![1, 4, 5]);
    assert!(buffer.is_empty());
}

#[test]
fn empty_returns_everything() {
    let mut buffer = filled(3, &[1, 2, 3, 4]);
    assert_eq!(buffer.empty(), vec![2, 3, 4]);
    assert_eq!(buffer.len(), 0);
    assert_eq!(buffer.capacity(), 3);
    assert_eq!(buffer.empty(), Vec::<u32>::new());
    buffer.push_back(9);
    assert_eq!(contents(&buffer), vec![9]);
}

#[test]
fn clear_keeps_the_capacity() {
    let mut buffer = filled(3, &[1, 2]);
    buffer.clear();
    assert_eq!(buffer.len(), 0);
    assert_eq!(buffer.capacity(), 3);
    assert_eq!(contents(&buffer), Vec::<u32>::new());
}

#[test]
fn fills_keep_what_is_there() {
    let mut back = filled(5, &[1, 2]);
    back.fill_back(0);
    assert_eq!(contents(&back), vec![1, 2, 0, 0, 0]);
    let mut front = filled(5, &[1, 2]);
    front.fill_front(0);
    assert_eq!(contents(&front), vec![0, 0, 0, 1, 2]);
    front.fill_front(9);
    assert_eq!(contents(&front), vec![0, 0, 0, 1, 2]);
    assert_eq!(front.len(), 5);
}

#[test]
fn initialize_fills_with_the_value() {
    let buffer: RingBuffer<u32> = RingBuffer::new(4).initialize(7);
    assert_eq!(contents(&buffer), vec![7, 7, 7, 7]);
    assert_eq!(buffer.len(), 4);
    let mut used = filled(3, &[1, 2]);
    used.initialize_again(0);
    assert_eq!(contents(&used), vec![0, 0, 0]);
    assert_eq!(used.len(), 3);
}

#[test]
fn to_capacity_front_keeps_the_newest() {
    let mut buffer = filled(5, &[1, 2, 3, 4, 5]);
    buffer.to_capacity_front(Some(3));
    assert_eq!(contents(&buffer), vec![3, 4, 5]);
    assert_eq!(buffer.capacity(), 3);
    assert_eq!(buffer.len(), 3);
    buffer.to_capacity_front(None);
    assert_eq!(contents(&buffer), vec![3, 4, 5]);
    buffer.to_capacity_front(Some(8));
    assert_eq!(contents(&buffer), vec![3, 4, 5]);
    assert_eq!(buffer.capacity(), 8);
    buffer.push_back(6);
    assert_eq!(contents(&buffer), vec![3, 4, 5, 6]);
}

#[test]
fn to_capacity_back_keeps_the_oldest() {
    let mut buffer = filled(5, &[1, 2, 3, 4, 5]);
    buffer.to_capacity_back(Some(2));
    assert_eq!(contents(&buffer), vec![1, 2]);
    assert_eq!(buffer.capacity(), 2);
    assert_eq!(buffer.len(), 2);
    buffer.to_capacity_back(None);
    assert_eq!(contents(&buffer), vec![1, 2]);
}

#[test]
fn to_capacity_zero_evicts_everything() {
    let mut front = filled(3, &[1, 2, 3]);
    front.to_capacity_front(Some(0));
    assert_eq!(front.len(), 0);
    assert_eq!(front.capacity(), 0);
    assert_eq!(contents(&front), Vec::<u32>::new());
    let mut back = filled(3, &[1, 2, 3]);
    back.to_capacity_back(Some(0));
    assert_eq!(back.len(), 0);
    assert_eq!(back.capacity(), 0);
    back.push_back(1);
    assert_eq!(back.len(), 0);
}

#[test]
fn from_a_vector_is_full() {
    let buffer = RingBuffer::from(vec![1u32, 2, 3]);
    assert_eq!(contents(&buffer), vec![1, 2, 3]);
    assert_eq!(buffer.len(), 3);
    assert_eq!(buffer.capacity(), 3);
    assert_eq!(buffer.front(), Some(&1));
    let empty = RingBuffer::from(Vec::<u32>::new());
    assert_eq!(empty.len(), 0);
    assert_eq!(empty.capacity(), 0);
}

#[test]
fn from_a_deque_and_back() {
    let deque: VecDeque<u32> = VecDeque::from(vec![4, 5, 6]);
    let mut buffer = RingBuffer::from(deque.clone());
    assert_eq!(buffer.len(), 3);
    assert_eq!(buffer.capacity(), 3);
    buffer.push_back(7);
    assert_eq!(buffer.into_deque(), VecDeque::from(vec![5, 6, 7]));
    let same = RingBuffer::from_deque(deque.clone());
    assert_eq!(same.inner(), &deque);
}

#[test]
fn clone_is_independent() {
    let mut buffer = filled(3, &[1, 2]);
    let copy = buffer.clone();
    buffer.push_back(3);
    assert_eq!(contents(&copy), vec![1, 2]);
    assert_eq!(copy.len(), 2);
    assert_eq!(copy.capacity(), 3);
    assert_eq!(contents(&buffer), vec![1, 2, 3]);
}

#[test]
fn buffer_back_emits_every_capacity_items() {
    let mut buffer: RingBuffer<u32> = RingBuffer::new(3);
    let mut blocks = Vec::new();
    for item in 1..=10u32 {
        match buffer.buffer_back(item) {
            Some(block) => {
                assert_eq!(item % 3, 0);
                assert_eq!(block.len(), 3);
                assert_eq!(buffer.len(), 0);
                blocks.push(block.into_iter().collect::<Vec<u32>>());
            }
            None => {
                assert_ne!(item % 3, 0);
                assert_eq!(buffer.len(), (item % 3) as usize);
            }
        }
    }
    assert_eq!(blocks, vec![vec![1, 2, 3], vec![4, 5, 6], vec![7, 8, 9]]);
    assert_eq!(contents(&buffer), vec![10]);
}

#[test]
fn buffer_front_emits_in_reverse() {
    let mut buffer: RingBuffer<u32> = RingBuffer::new(2);
    assert_eq!(buffer.buffer_front(1), None);
    assert_eq!(buffer.buffer_front(2), Some(VecDeque::from(vec![2, 1])));
    assert_eq!(buffer.len(), 0);
    assert_eq!(buffer.buffer_front(3), None);
    assert_eq!(contents(&buffer), vec![3]);
}

#[test]
fn buffer_of_one_emits_each_item() {
    let mut buffer: RingBuffer<u32> = RingBuffer::new(1);
    assert_eq!(buffer.buffer_back(8), Some(VecDeque::from(vec![8])));
    assert_eq!(buffer.buffer_back(9), Some(VecDeque::from(vec![9])));
    assert!(buffer.is_empty());
}

#[test]
fn buffer_of_none_emits_empty_blocks() {
    let mut buffer: RingBuffer<u32> = RingBuffer::new(0);
    assert_eq!(buffer.buffer_back(8), Some(VecDeque::new()));
    assert_eq!(buffer.buffer_front(9), Some(VecDeque::new()));
    assert!(buffer.is_empty());
}
