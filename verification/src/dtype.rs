//! A bounded double-ended queue with evict-on-overflow semantics, and the
//! chunking adapter that turns a stream of single items into full blocks.
//!
//! The mathematical model of a buffer is the sequence of its items, oldest
//! first, together with its capacity. All contracts are stated over that
//! sequence.

use std::collections::VecDeque;
use std::ops::Range;
use vstd::prelude::*;

verus! {

/// The newest `capacity` items of `items`; all of them when there are no more
/// than `capacity`.
pub open spec fn newest<T>(items: Seq<T>, capacity: nat) -> Seq<T> {
    if items.len() <= capacity {
        items
    } else {
        items.subrange(items.len() - capacity, items.len() as int)
    }
}

/// The oldest `capacity` items of `items`; all of them when there are no more
/// than `capacity`.
pub open spec fn oldest<T>(items: Seq<T>, capacity: nat) -> Seq<T> {
    if items.len() <= capacity {
        items
    } else {
        items.subrange(0, capacity as int)
    }
}

/// Contents of a buffer bounded by `capacity` after `item` is pushed at the
/// back: a buffer without room first gives up its oldest item, and a buffer
/// of capacity zero stays as it is.
pub open spec fn pushed_back<T>(items: Seq<T>, capacity: nat, item: T) -> Seq<T> {
    if capacity == 0 {
        items
    } else {
        newest(items.push(item), capacity)
    }
}

/// Contents of a buffer bounded by `capacity` after `item` is pushed at the
/// front: a buffer without room first gives up its newest item, and a buffer
/// of capacity zero stays as it is.
pub open spec fn pushed_front<T>(items: Seq<T>, capacity: nat, item: T) -> Seq<T> {
    if capacity == 0 {
        items
    } else {
        oldest(seq![item] + items, capacity)
    }
}

/// Every item of `items` is a clone of `value`.
pub open spec fn all_cloned_from<T: Clone>(value: T, items: Seq<T>) -> bool {
    forall|i: int| 0 <= i < items.len() ==> cloned(value, #[trigger] items[i])
}

/// `copy` is an item-by-item clone of `source`.
pub open spec fn cloned_items<T: Clone>(source: Seq<T>, copy: Seq<T>) -> bool {
    &&& copy.len() == source.len()
    &&& forall|i: int| 0 <= i < source.len() ==> cloned(source[i], #[trigger] copy[i])
}

/// `VecDeque::get_mut`: a mutable reference to the item at `index`, counted
/// from the front, or `None` when the deque has no such item. Writing through
/// the reference changes that item and leaves every other item, and the
/// length, as they were.
#[verifier::external_body]
pub(crate) fn deque_get_mut<T>(deque: &mut VecDeque<T>, index: usize) -> (item: Option<&mut T>)
    ensures
        index >= old(deque)@.len() ==> item.is_none() && final(deque)@ == old(deque)@,
        index < old(deque)@.len() ==> item.is_some() && *item.unwrap() == old(deque)@[index as int]
            && final(deque)@ == old(deque)@.update(index as int, *final(item.unwrap())),
{
    deque.get_mut(index)
}

/// Moves the items of a deque into a vector, keeping their order.
pub(crate) fn deque_into_vec<T>(deque: VecDeque<T>) -> (items: Vec<T>)
    ensures
        items@ == deque@,
{
    let mut deque = deque;
    let ghost all = deque@;
    let mut items: Vec<T> = Vec::with_capacity(deque.len());
    while deque.len() > 0
        invariant
            items@ + deque@ =~= all,
        decreases deque.len(),
    {
        if let Some(item) = deque.pop_front() {
            items.push(item);
        }
    }
    assert(items@ =~= all);
    items
}

/// A bounded double-ended queue: at most `capacity` items, ordered from the
/// oldest (front, index 0) to the newest (back).
#[derive(Debug, Clone)]
pub struct RingBuffer<T> {
    inner: VecDeque<T>,
    capacity: usize,
    length: usize,
}

impl<T> View for RingBuffer<T> {
    type V = Seq<T>;

    /// The items, oldest first.
    closed spec fn view(&self) -> Seq<T> {
        self.inner@
    }
}

impl<T> RingBuffer<T> where T: Clone {
    /// The declared upper bound on the number of items.
    pub closed spec fn spec_capacity(&self) -> nat {
        self.capacity as nat
    }

    /// The cached item count agrees with the contents and respects the bound.
    /// Every constructor establishes this and every method but `inner_mut`
    /// preserves it.
    pub closed spec fn wf(&self) -> bool {
        &&& self.length == self.inner@.len()
        &&& self.length <= self.capacity
    }

    /// A well-formed buffer never holds more items than its capacity.
    pub proof fn lemma_within_capacity(&self)
        requires
            self.wf(),
        ensures
            self@.len() <= self.spec_capacity(),
    {
    }

    /// The full buffer that holds the items of `deque`.
    pub closed spec fn spec_from_deque(deque: VecDeque<T>) -> Self {
        RingBuffer { inner: deque, capacity: deque.len(), length: deque.len() }
    }

    /// An empty buffer that will hold at most `capacity` items.
    pub fn new(capacity: usize) -> (buffer: Self)
        ensures
            buffer.wf(),
            buffer@ == Seq::<T>::empty(),
            buffer.spec_capacity() == capacity,
    {
        Self { inner: VecDeque::with_capacity(capacity), capacity, length: 0 }
    }

    /// A full buffer holding the items of `deque`, whose length becomes the
    /// capacity.
    pub fn from_deque(deque: VecDeque<T>) -> (buffer: RingBuffer<T>)
        ensures
            buffer.wf(),
            buffer@ == deque@,
            buffer.spec_capacity() == deque@.len(),
            buffer == Self::spec_from_deque(deque),
    {
        Self { capacity: deque.len(), length: deque.len(), inner: deque }
    }

    /// The number of items held.
    pub fn len(&self) -> (n: usize)
        requires
            self.wf(),
        ensures
            n == self@.len(),
            n <= self.spec_capacity(),
    {
        self.length
    }

    /// Whether no item is held.
    pub fn is_empty(&self) -> (empty: bool)
        requires
            self.wf(),
        ensures
            empty == (self@.len() == 0),
    {
        self.len() == 0
    }

    /// The upper bound on the number of items.
    pub fn capacity(&self) -> (n: usize)
        ensures
            n == self.spec_capacity(),
    {
        self.capacity
    }

    /// The items as a deque, oldest first; the capacity is forgotten.
    pub fn into_deque(self) -> (deque: VecDeque<T>)
        ensures
            deque@ == self@,
    {
        self.inner
    }

    /// The items as a deque, oldest first.
    pub fn inner(&self) -> (deque: &VecDeque<T>)
        ensures
            deque@ == self@,
    {
        &self.inner
    }

    /// Direct access to the underlying deque. The buffer's contents become
    /// whatever the caller leaves in the deque; the buffer stays well formed
    /// as long as the number of items is left unchanged.
    pub fn inner_mut(&mut self) -> (deque: &mut VecDeque<T>)
        ensures
            deque@ == old(self)@,
            final(self)@ == final(deque)@,
            final(self).spec_capacity() == old(self).spec_capacity(),
            old(self).wf() && final(deque)@.len() == old(self)@.len() ==> final(self).wf(),
    {
        &mut self.inner
    }

    /// Removes every item.
    pub fn clear(&mut self)
        ensures
            final(self).wf(),
            final(self)@ == Seq::<T>::empty(),
            final(self).spec_capacity() == old(self).spec_capacity(),
    {
        self.inner.clear();
        self.length = 0;
    }

    /// Removes the items at positions `range.start..range.end`, counted from
    /// the oldest, and returns them in order; the items around them close up.
    pub fn drain(&mut self, range: Range<usize>) -> (drained: Vec<T>)
        requires
            old(self).wf(),
            range.start <= range.end <= old(self)@.len(),
        ensures
            final(self).wf(),
            final(self).spec_capacity() == old(self).spec_capacity(),
            drained@ == old(self)@.subrange(range.start as int, range.end as int),
            final(self)@ == old(self)@.subrange(0, range.start as int) + old(self)@.subrange(
                range.end as int,
                old(self)@.len() as int,
            ),
    {
        let mut tail = self.inner.split_off(range.end);
        let middle = self.inner.split_off(range.start);
        self.inner.append(&mut tail);
        let drained = deque_into_vec(middle);
        self.length -= drained.len();
        drained
    }

    /// Removes every item and returns them, oldest first.
    pub fn empty(&mut self) -> (items: Vec<T>)
        ensures
            final(self).wf(),
            final(self).spec_capacity() == old(self).spec_capacity(),
            items@ == old(self)@,
            final(self)@ == Seq::<T>::empty(),
    {
        self.length = 0;
        let all = self.inner.split_off(0);
        assert(all@ =~= old(self)@);
        deque_into_vec(all)
    }

    /// Pushes `capacity` clones of `value` at the back, so that the buffer
    /// ends up full of them whatever it held before.
    pub fn initialize_again(&mut self, value: T)
        requires
            old(self).wf(),
        ensures
            final(self).wf(),
            final(self).spec_capacity() == old(self).spec_capacity(),
            final(self)@.len() == old(self).spec_capacity(),
            all_cloned_from(value, final(self)@),
    {
        let mut pushed: usize = 0;
        while pushed < self.capacity
            invariant
                self.wf(),
                self.capacity == old(self).capacity,
                pushed <= self.capacity,
                self@.len() >= pushed,
                self@.len() == self.capacity || self@.len() == old(self)@.len() + pushed,
                forall|i: int|
                    self@.len() - pushed <= i < self@.len() ==> cloned(value, #[trigger] self@[i]),
            decreases self.capacity - pushed,
        {
            self.push_back(value.clone());
            pushed += 1;
        }
    }

    /// Fills a buffer to its capacity with clones of `value`.
    pub fn initialize(self, value: T) -> (buffer: Self)
        requires
            self.wf(),
        ensures
            buffer.wf(),
            buffer.spec_capacity() == self.spec_capacity(),
            buffer@.len() == self.spec_capacity(),
            all_cloned_from(value, buffer@),
    {
        let mut buffer = self;
        buffer.initialize_again(value);
        buffer
    }

    /// The newest item, if there is one.
    pub fn back(&self) -> (item: Option<&T>)
        ensures
            item == if self.spec_capacity() > 0 && self@.len() > 0 {
                Some(&self@.last())
            } else {
                None
            },
    {
        if self.capacity == 0 || self.inner.len() == 0 {
            return None;
        }
        Some(&self.inner[self.inner.len() - 1])
    }

    /// Mutable access to the newest item, if there is one. Writing through
    /// the reference replaces that item and nothing else.
    pub fn back_mut(&mut self) -> (item: Option<&mut T>)
        ensures
            final(self).spec_capacity() == old(self).spec_capacity(),
            old(self).wf() ==> final(self).wf(),
            old(self).spec_capacity() > 0 && old(self)@.len() > 0 ==> item.is_some()
                && *item.unwrap() == old(self)@.last() && final(self)@ == old(self)@.update(
                old(self)@.len() - 1,
                *final(item.unwrap()),
            ),
            !(old(self).spec_capacity() > 0 && old(self)@.len() > 0) ==> item.is_none()
                && final(self)@ == old(self)@,
    {
        if self.capacity == 0 || self.inner.len() == 0 {
            return None;
        }
        let last = self.inner.len() - 1;
        deque_get_mut(&mut self.inner, last)
    }

    /// The item `n` places before the newest one, if there is one.
    pub fn back_n(&self, n: usize) -> (item: Option<&T>)
        ensures
            item == if self.spec_capacity() > 0 && n < self@.len() {
                Some(&self@[self@.len() - 1 - n])
            } else {
                None
            },
    {
        if self.capacity == 0 || n >= self.inner.len() {
            return None;
        }
        Some(&self.inner[self.inner.len() - n - 1])
    }

    /// The oldest item, if there is one.
    pub fn front(&self) -> (item: Option<&T>)
        ensures
            item == if self.spec_capacity() > 0 && self@.len() > 0 {
                Some(&self@.first())
            } else {
                None
            },
    {
        if self.capacity == 0 || self.inner.len() == 0 {
            return None;
        }
        Some(&self.inner[0])
    }

    /// Mutable access to the oldest item, if there is one. Writing through
    /// the reference replaces that item and nothing else.
    pub fn front_mut(&mut self) -> (item: Option<&mut T>)
        ensures
            final(self).spec_capacity() == old(self).spec_capacity(),
            old(self).wf() ==> final(self).wf(),
            old(self).spec_capacity() > 0 && old(self)@.len() > 0 ==> item.is_some()
                && *item.unwrap() == old(self)@.first() && final(self)@ == old(self)@.update(
                0,
                *final(item.unwrap()),
            ),
            !(old(self).spec_capacity() > 0 && old(self)@.len() > 0) ==> item.is_none()
                && final(self)@ == old(self)@,
    {
        if self.capacity == 0 {
            return None;
        }
        deque_get_mut(&mut self.inner, 0)
    }

    /// The item `n` places after the oldest one, if there is one.
    pub fn front_n(&self, n: usize) -> (item: Option<&T>)
        ensures
            item == if self.spec_capacity() > 0 && n < self@.len() {
                Some(&self@[n as int])
            } else {
                None
            },
    {
        if self.capacity == 0 || n >= self.inner.len() {
            return None;
        }
        Some(&self.inner[n])
    }

    /// Removes the oldest item and returns it; `None` when there is none.
    pub fn pop_front(&mut self) -> (item: Option<T>)
        requires
            old(self).wf(),
        ensures
            final(self).wf(),
            final(self).spec_capacity() == old(self).spec_capacity(),
            item == if old(self)@.len() > 0 {
                Some(old(self)@.first())
            } else {
                None
            },
            final(self)@ == if old(self)@.len() > 0 {
                old(self)@.drop_first()
            } else {
                old(self)@
            },
    {
        if self.capacity == 0 {
            return None;
        }
        let item = self.inner.pop_front();
        if let Some(_) = item {
            self.length -= 1;
        }
        item
    }

    /// Removes the newest item and returns it; `None` when there is none.
    pub fn pop_back(&mut self) -> (item: Option<T>)
        requires
            old(self).wf(),
        ensures
            final(self).wf(),
            final(self).spec_capacity() == old(self).spec_capacity(),
            item == if old(self)@.len() > 0 {
                Some(old(self)@.last())
            } else {
                None
            },
            final(self)@ == if old(self)@.len() > 0 {
                old(self)@.drop_last()
            } else {
                old(self)@
            },
    {
        if self.capacity == 0 {
            return None;
        }
        let item = self.inner.pop_back();
        if let Some(_) = item {
            self.length -= 1;
        }
        item
    }

    /// Pushes clones of `item` at the front until the buffer is full: what it
    /// held stays at the back.
    pub fn fill_front(&mut self, item: T)
        requires
            old(self).wf(),
        ensures
            final(self).wf(),
            final(self).spec_capacity() == old(self).spec_capacity(),
            final(self)@.len() == old(self).spec_capacity(),
            final(self)@.subrange(
                old(self).spec_capacity() - old(self)@.len(),
                old(self).spec_capacity() as int,
            ) == old(self)@,
            all_cloned_from(
                item,
                final(self)@.subrange(0, old(self).spec_capacity() - old(self)@.len()),
            ),
    {
        while self.length < self.capacity
            invariant
                self.wf(),
                self.capacity == old(self).capacity,
                self@.len() >= old(self)@.len(),
                self@.subrange(self@.len() - old(self)@.len(), self@.len() as int) =~= old(self)@,
                forall|i: int|
                    0 <= i < self@.len() - old(self)@.len() ==> cloned(item, #[trigger] self@[i]),
            decreases self.capacity - self.length,
        {
            let ghost before = self@;
            self.push_front(item.clone());
            assert(self@ =~= seq![self@[0]] + before);
        }
    }

    /// Pushes clones of `item` at the back until the buffer is full: what it
    /// held stays at the front.
    pub fn fill_back(&mut self, item: T)
        requires
            old(self).wf(),
        ensures
            final(self).wf(),
            final(self).spec_capacity() == old(self).spec_capacity(),
            final(self)@.len() == old(self).spec_capacity(),
            final(self)@.subrange(0, old(self)@.len() as int) == old(self)@,
            all_cloned_from(
                item,
                final(self)@.subrange(old(self)@.len() as int, old(self).spec_capacity() as int),
            ),
    {
        while self.length < self.capacity
            invariant
                self.wf(),
                self.capacity == old(self).capacity,
                self@.len() >= old(self)@.len(),
                self@.subrange(0, old(self)@.len() as int) =~= old(self)@,
                forall|i: int|
                    old(self)@.len() <= i < self@.len() ==> cloned(item, #[trigger] self@[i]),
            decreases self.capacity - self.length,
        {
            let ghost before = self@;
            self.push_back(item.clone());
            assert(self@ =~= before.push(self@.last()));
        }
    }

    /// Optionally sets a new capacity, then gives up the oldest items until
    /// the rest fits: the newest items stay.
    pub fn to_capacity_front(&mut self, capacity: Option<usize>)
        requires
            old(self).wf(),
        ensures
            final(self).wf(),
            final(self).spec_capacity() == match capacity {
                Some(c) => c as nat,
                None => old(self).spec_capacity(),
            },
            final(self)@ == newest(old(self)@, final(self).spec_capacity()),
    {
        if let Some(capacity) = capacity {
            self.capacity = capacity;
        }
        while self.length > self.capacity
            invariant
                self.length == self.inner@.len(),
                self.length <= old(self)@.len(),
                self.length >= self.capacity || self.length == old(self)@.len(),
                self.capacity == match capacity {
                    Some(c) => c,
                    None => old(self).capacity,
                },
                self.inner@ =~= old(self)@.subrange(
                    old(self)@.len() - self.length,
                    old(self)@.len() as int,
                ),
            decreases self.length,
        {
            let _ = self.inner.pop_front();
            self.length -= 1;
        }
        assert(self.inner@ =~= newest(old(self)@, self.capacity as nat));
    }

    /// Optionally sets a new capacity, then gives up the newest items until
    /// the rest fits: the oldest items stay.
    pub fn to_capacity_back(&mut self, capacity: Option<usize>)
        requires
            old(self).wf(),
        ensures
            final(self).wf(),
            final(self).spec_capacity() == match capacity {
                Some(c) => c as nat,
                None => old(self).spec_capacity(),
            },
            final(self)@ == oldest(old(self)@, final(self).spec_capacity()),
    {
        if let Some(capacity) = capacity {
            self.capacity = capacity;
        }
        while self.length > self.capacity
            invariant
                self.length == self.inner@.len(),
                self.length <= old(self)@.len(),
                self.length >= self.capacity || self.length == old(self)@.len(),
                self.capacity == match capacity {
                    Some(c) => c,
                    None => old(self).capacity,
                },
                self.inner@ =~= old(self)@.subrange(0, self.length as int),
            decreases self.length,
        {
            let _ = self.inner.pop_back();
            self.length -= 1;
        }
        assert(self.inner@ =~= oldest(old(self)@, self.capacity as nat));
    }

    /// Appends `item` as the newest one. A full buffer first gives up its
    /// oldest item; a buffer of capacity zero ignores the push.
    pub fn push_back(&mut self, item: T)
        requires
            old(self).wf(),
        ensures
            final(self).wf(),
            final(self).spec_capacity() == old(self).spec_capacity(),
            final(self)@ == pushed_back(old(self)@, old(self).spec_capacity(), item),
    {
        if self.capacity == 0 {
            return ;
        }
        self.to_capacity_front(None);
        if self.length == self.capacity {
            self.pop_front();
        }
        self.inner.push_back(item);
        self.length += 1;
    }

    /// Inserts `item` as the oldest one. A full buffer first gives up its
    /// newest item; a buffer of capacity zero ignores the push.
    pub fn push_front(&mut self, item: T)
        requires
            old(self).wf(),
        ensures
            final(self).wf(),
            final(self).spec_capacity() == old(self).spec_capacity(),
            final(self)@ == pushed_front(old(self)@, old(self).spec_capacity(), item),
    {
        if self.capacity == 0 {
            return ;
        }
        self.to_capacity_back(None);
        if self.length == self.capacity {
            self.pop_back();
        }
        self.inner.push_front(item);
        self.length += 1;
    }
}

impl<T> From<VecDeque<T>> for RingBuffer<T> where T: Clone {
    /// A full buffer holding the items of `value`.
    fn from(value: VecDeque<T>) -> (buffer: Self)
        ensures
            buffer.wf(),
            buffer@ == value@,
            buffer.spec_capacity() == value@.len(),
    {
        Self::from_deque(value)
    }
}

impl<T> vstd::std_specs::convert::FromSpecImpl<VecDeque<T>> for RingBuffer<T> where T: Clone {
    open spec fn obeys_from_spec() -> bool {
        true
    }

    open spec fn from_spec(value: VecDeque<T>) -> Self {
        Self::spec_from_deque(value)
    }
}

impl<T> From<Vec<T>> for RingBuffer<T> where T: Clone {
    /// A full buffer holding the items of `value`, the first one as the
    /// oldest.
    fn from(value: Vec<T>) -> (buffer: Self)
        ensures
            buffer.wf(),
            buffer@ == value@,
            buffer.spec_capacity() == value@.len(),
    {
        let mut value = value;
        let ghost all = value@;
        let mut deque: VecDeque<T> = VecDeque::with_capacity(value.len());
        while value.len() > 0
            invariant
                value@ + deque@ =~= all,
            decreases value.len(),
        {
            if let Some(item) = value.pop() {
                deque.push_front(item);
            }
        }
        assert(deque@ =~= all);
        Self::from_deque(deque)
    }
}

impl<T> vstd::std_specs::convert::FromSpecImpl<Vec<T>> for RingBuffer<T> where T: Clone {
    /// The buffer built from a vector is pinned down by its items and its
    /// capacity, as the contract of `from` states, and not as a value.
    open spec fn obeys_from_spec() -> bool {
        false
    }

    open spec fn from_spec(value: Vec<T>) -> Self {
        arbitrary()
    }
}

/// What adding to a staging area of `capacity` items yields, given the
/// contents `pushed` that the area has once the item is in: a full area is
/// handed out as a block, clone by clone, and nothing is left behind; an area
/// that is not full hands out nothing and keeps what it has.
pub open spec fn chunking_outcome<T: Clone>(
    pushed: Seq<T>,
    capacity: nat,
    chunk: Option<VecDeque<T>>,
    left: Seq<T>,
) -> bool {
    if pushed.len() == capacity {
        &&& chunk is Some
        &&& cloned_items(pushed, chunk->0@)
        &&& left == Seq::<T>::empty()
    } else {
        &&& chunk is None
        &&& left == pushed
    }
}

/// Batches single items into blocks of a fixed size.
pub trait ChunkedBuffer<T> where T: Clone {
    /// The items staged since the last block, oldest first.
    spec fn staged(&self) -> Seq<T>;

    /// The number of items that make a block.
    spec fn block_len(&self) -> nat;

    /// The staging area is consistent and holds no more than a block.
    spec fn staging_wf(&self) -> bool;

    /// Adds `item` as the newest staged item. Returns the block, and starts
    /// over with nothing staged, exactly when the staging area is full after
    /// the push.
    fn buffer_back(&mut self, item: T) -> (chunk: Option<VecDeque<T>>)
        requires
            old(self).staging_wf(),
        ensures
            final(self).staging_wf(),
            final(self).block_len() == old(self).block_len(),
            chunking_outcome(
                pushed_back(old(self).staged(), old(self).block_len(), item),
                old(self).block_len(),
                chunk,
                final(self).staged(),
            ),
    ;

    /// Adds `item` as the oldest staged item. Returns the block, and starts
    /// over with nothing staged, exactly when the staging area is full after
    /// the push.
    fn buffer_front(&mut self, item: T) -> (chunk: Option<VecDeque<T>>)
        requires
            old(self).staging_wf(),
        ensures
            final(self).staging_wf(),
            final(self).block_len() == old(self).block_len(),
            chunking_outcome(
                pushed_front(old(self).staged(), old(self).block_len(), item),
                old(self).block_len(),
                chunk,
                final(self).staged(),
            ),
    ;
}

impl<T> ChunkedBuffer<T> for RingBuffer<T> where T: Clone {
    open spec fn staged(&self) -> Seq<T> {
        self@
    }

    open spec fn block_len(&self) -> nat {
        self.spec_capacity()
    }

    open spec fn staging_wf(&self) -> bool {
        self.wf()
    }

    fn buffer_back(&mut self, item: T) -> (chunk: Option<VecDeque<T>>) {
        self.push_back(item);
        if self.length == self.capacity {
            let buf = self.inner.clone();
            self.clear();
            Some(buf)
        } else {
            None
        }
    }

    fn buffer_front(&mut self, item: T) -> (chunk: Option<VecDeque<T>>) {
        self.push_front(item);
        if self.length == self.capacity {
            let buf = self.inner.clone();
            self.clear();
            Some(buf)
        } else {
            None
        }
    }
}

/// One push, at either end of a buffer.
pub enum Push<T> {
    Back(T),
    Front(T),
}

/// Contents of a buffer bounded by `capacity` after one push.
pub open spec fn pushed<T>(items: Seq<T>, capacity: nat, push: Push<T>) -> Seq<T> {
    match push {
        Push::Back(item) => pushed_back(items, capacity, item),
        Push::Front(item) => pushed_front(items, capacity, item),
    }
}

/// Contents of a buffer bounded by `capacity` after the pushes of `pushes`,
/// made in order.
pub open spec fn pushed_all<T>(items: Seq<T>, capacity: nat, pushes: Seq<Push<T>>) -> Seq<T>
    decreases pushes.len(),
{
    if pushes.len() == 0 {
        items
    } else {
        pushed(pushed_all(items, capacity, pushes.drop_last()), capacity, pushes.last())
    }
}

/// Contents of a buffer bounded by `capacity` after every item of `added` is
/// pushed at the back, in order.
pub open spec fn pushed_back_all<T>(items: Seq<T>, capacity: nat, added: Seq<T>) -> Seq<T>
    decreases added.len(),
{
    if added.len() == 0 {
        items
    } else {
        pushed_back(pushed_back_all(items, capacity, added.drop_last()), capacity, added.last())
    }
}

/// Contents of a buffer bounded by `capacity` after every item of `added` is
/// pushed at the front, in order.
pub open spec fn pushed_front_all<T>(items: Seq<T>, capacity: nat, added: Seq<T>) -> Seq<T>
    decreases added.len(),
{
    if added.len() == 0 {
        items
    } else {
        pushed_front(pushed_front_all(items, capacity, added.drop_last()), capacity, added.last())
    }
}

/// A buffer that holds no more than its capacity still does so after any
/// sequence of pushes, at whichever ends they are made.
pub proof fn lemma_pushes_stay_within_capacity<T>(
    items: Seq<T>,
    capacity: nat,
    pushes: Seq<Push<T>>,
)
    requires
        items.len() <= capacity,
    ensures
        pushed_all(items, capacity, pushes).len() <= capacity,
    decreases pushes.len(),
{
    if pushes.len() > 0 {
        lemma_pushes_stay_within_capacity(items, capacity, pushes.drop_last());
    }
}

/// Pushing at the back is first in, first out: after any number of pushes a
/// buffer of positive capacity holds the newest `capacity` items of what it
/// held followed by what was pushed, in the order of the pushes. Each push
/// beyond the capacity has therefore evicted the oldest item.
pub proof fn lemma_push_back_keeps_newest<T>(items: Seq<T>, capacity: nat, added: Seq<T>)
    requires
        items.len() <= capacity,
        capacity > 0,
    ensures
        pushed_back_all(items, capacity, added) == newest(items + added, capacity),
    decreases added.len(),
{
    if added.len() == 0 {
        assert(items + added =~= items);
    } else {
        let earlier = added.drop_last();
        lemma_push_back_keeps_newest(items, capacity, earlier);
        assert((items + earlier).push(added.last()) =~= items + added);
        assert(newest(newest(items + earlier, capacity).push(added.last()), capacity) =~= newest(
            items + added,
            capacity,
        ));
    }
}

/// Pushing at the front mirrors pushing at the back: after any number of
/// pushes a buffer of positive capacity holds the `capacity` items nearest
/// the front of what was pushed, last push first, followed by what it held.
/// Each push beyond the capacity has therefore evicted the item at the back.
pub proof fn lemma_push_front_keeps_oldest<T>(items: Seq<T>, capacity: nat, added: Seq<T>)
    requires
        items.len() <= capacity,
        capacity > 0,
    ensures
        pushed_front_all(items, capacity, added) == oldest(added.reverse() + items, capacity),
    decreases added.len(),
{
    if added.len() == 0 {
        assert(added.reverse() + items =~= items);
    } else {
        let earlier = added.drop_last();
        lemma_push_front_keeps_oldest(items, capacity, earlier);
        assert(seq![added.last()] + (earlier.reverse() + items) =~= added.reverse() + items);
        assert(oldest(seq![added.last()] + oldest(earlier.reverse() + items, capacity), capacity)
            =~= oldest(added.reverse() + items, capacity));
    }
}

/// What a staging area of `capacity` items holds after the items of `added`
/// are buffered at the back one by one: each push that fills the area hands
/// the block out and leaves nothing staged.
pub open spec fn staged_after<T>(staged: Seq<T>, capacity: nat, added: Seq<T>) -> Seq<T>
    decreases added.len(),
{
    if added.len() == 0 {
        staged
    } else {
        let pushed = pushed_back(
            staged_after(staged, capacity, added.drop_last()),
            capacity,
            added.last(),
        );
        if pushed.len() == capacity {
            Seq::empty()
        } else {
            pushed
        }
    }
}

/// The block that the last push of `added` hands out, if it hands one out.
pub open spec fn block_on_last<T>(staged: Seq<T>, capacity: nat, added: Seq<T>) -> Option<Seq<T>>
    recommends
        added.len() > 0,
{
    let pushed = pushed_back(
        staged_after(staged, capacity, added.drop_last()),
        capacity,
        added.last(),
    );
    if pushed.len() == capacity {
        Some(pushed)
    } else {
        None
    }
}

/// A block comes out exactly when `capacity` items have gone in since the
/// last block, or since the start: with `staged` items waiting at first, the
/// pushes of `added` leave `(staged.len() + added.len()) % capacity` items
/// staged, namely the newest ones, and the last push hands out a block
/// exactly when that count is zero. The block holds the newest `capacity`
/// items, in the order in which they went in.
pub proof fn lemma_block_every_capacity_items<T>(staged: Seq<T>, capacity: nat, added: Seq<T>)
    requires
        capacity > 0,
        staged.len() < capacity,
    ensures
        staged_after(staged, capacity, added) == newest(
            staged + added,
            (staged.len() + added.len()) % capacity,
        ),
        added.len() > 0 ==> (block_on_last(staged, capacity, added) is Some <==> (staged.len()
            + added.len()) % capacity == 0),
        added.len() > 0 ==> (block_on_last(staged, capacity, added) matches Some(block)
            ==> block == newest(staged + added, capacity)),
    decreases added.len(),
{
    let total: nat = staged.len() + added.len();
    if added.len() == 0 {
        assert(staged + added =~= staged);
        assert(total % capacity == total) by {
            vstd::arithmetic::div_mod::lemma_small_mod(total, capacity);
        }
    } else {
        let earlier = added.drop_last();
        lemma_block_every_capacity_items(staged, capacity, earlier);
        let before = staged_after(staged, capacity, earlier);
        let count: nat = ((total - 1) as nat) % capacity;
        assert(count < capacity && count <= total - 1 && total % capacity == if count + 1
            == capacity {
            0
        } else {
            count + 1
        }) by (nonlinear_arith)
            requires
                capacity > 0,
                total >= 1,
                count == ((total - 1) as nat) % capacity,
        ;
        assert((staged + earlier).push(added.last()) =~= staged + added);
        assert(staged.len() + earlier.len() == total - 1);
        assert(before.len() == count);
        let pushed = pushed_back(before, capacity, added.last());
        assert(pushed =~= before.push(added.last()));
        assert(pushed =~= newest(staged + added, count + 1));
        if count + 1 == capacity {
            assert(staged_after(staged, capacity, added) =~= newest(staged + added, 0));
        }
    }
}

} // verus!
