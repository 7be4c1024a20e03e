//! A bounded first-in first-out buffer of past experience.

use std::collections::VecDeque;
use vstd::prelude::*;

use crate::rng::random_below;

verus! {

/// A bounded buffer of experience: when full, a new item pushes out the
/// oldest one.
pub struct ReplayBuffer<T> {
    buffer: VecDeque<T>,
    capacity: usize,
}

/// The contents after pushing `item` onto `items` in a buffer of the given
/// capacity: the oldest item leaves first when the buffer is full.
pub open spec fn push_spec<T>(items: Seq<T>, capacity: usize, item: T) -> Seq<T> {
    if items.len() >= capacity && items.len() > 0 {
        items.drop_first().push(item)
    } else {
        items.push(item)
    }
}

/// `x` is a clone of some item of `items`.
pub open spec fn clone_of_some<T: Clone>(items: Seq<T>, x: T) -> bool {
    exists|j: int| 0 <= j < items.len() && cloned(items[j], x)
}

impl<T> ReplayBuffer<T> {
    /// The items in the buffer, oldest first.
    pub closed spec fn items(self) -> Seq<T> {
        self.buffer@
    }

    /// The buffer's capacity.
    pub closed spec fn cap(self) -> usize {
        self.capacity
    }

    /// An empty buffer of the given capacity.
    pub fn new(capacity: usize) -> (b: Self)
        ensures
            b.items() == Seq::<T>::empty(),
            b.cap() == capacity,
    {
        ReplayBuffer { buffer: VecDeque::with_capacity(capacity), capacity }
    }

    /// Add an item; when the buffer is full the oldest item is dropped first.
    pub fn push(&mut self, item: T)
        ensures
            final(self).items() == push_spec(old(self).items(), old(self).cap(), item),
            final(self).cap() == old(self).cap(),
    {
        if self.buffer.len() >= self.capacity {
            self.buffer.pop_front();
        }
        self.buffer.push_back(item);
    }

    /// The number of items in the buffer.
    pub fn len(&self) -> (n: usize)
        ensures
            n == self.items().len(),
    {
        self.buffer.len()
    }

    /// Clones of the items at the given indices, in the order of the indices.
    pub fn items_at(&self, indices: &Vec<usize>) -> (s: Vec<T>) where T: Clone
        requires
            forall|k: int| 0 <= k < indices@.len() ==> #[trigger] indices@[k] < self.items().len(),
        ensures
            s@.len() == indices@.len(),
            forall|k: int|
                0 <= k < indices@.len() ==> cloned(self.items()[indices@[k] as int], #[trigger] s@[k]),
    {
        let mut out: Vec<T> = Vec::with_capacity(indices.len());
        let m = indices.len();
        let mut k: usize = 0;
        while k < m
            invariant
                m == indices@.len(),
                k <= m,
                forall|i: int| 0 <= i < m ==> #[trigger] indices@[i] < self.items().len(),
                out@.len() == k,
                forall|i: int| 0 <= i < k ==> cloned(self.items()[indices@[i] as int], #[trigger] out@[i]),
            decreases m - k,
        {
            let idx = indices[k];
            let item = self.buffer[idx].clone();
            let ghost before = out@;
            out.push(item);
            assert(forall|i: int| 0 <= i < k ==> out@[i] == before[i]);
            k = k + 1;
        }
        out
    }

    /// Draw `batch_size` items at random, with replacement: each drawn item is
    /// a clone of an item of the buffer.
    pub fn sample(&self, batch_size: usize) -> (s: Vec<T>) where T: Clone
        requires
            batch_size == 0 || self.items().len() > 0,
        ensures
            s@.len() == batch_size,
            forall|k: int| 0 <= k < batch_size ==> clone_of_some(self.items(), #[trigger] s@[k]),
    {
        let n = self.buffer.len();
        let mut indices: Vec<usize> = Vec::with_capacity(batch_size);
        let mut k: usize = 0;
        while k < batch_size
            invariant
                k <= batch_size,
                n == self.items().len(),
                batch_size == 0 || n > 0,
                indices@.len() == k,
                forall|i: int| 0 <= i < k ==> #[trigger] indices@[i] < n,
            decreases batch_size - k,
        {
            indices.push(random_below(n));
            k = k + 1;
        }
        let sample = self.items_at(&indices);
        assert forall|k: int| 0 <= k < batch_size implies clone_of_some(self.items(), #[trigger] sample@[k]) by {
            assert(cloned(self.items()[indices@[k] as int], sample@[k]));
        }
        sample
    }
}

/// A buffer never grows beyond its capacity (or beyond one item, for a
/// buffer of capacity zero), and a full buffer stays full.
pub proof fn law_push_stays_bounded<T>(items: Seq<T>, capacity: usize, item: T)
    requires
        items.len() <= if capacity > 0 { capacity as nat } else { 1 },
    ensures
        push_spec(items, capacity, item).len() <= if capacity > 0 { capacity as nat } else { 1 },
        capacity > 0 && items.len() == capacity ==> push_spec(items, capacity, item).len() == capacity,
{
}

/// The buffer keeps the newest items in the order they came: after a push,
/// the contents are the last items of the old contents followed by the new
/// item.
pub proof fn law_push_keeps_newest<T>(items: Seq<T>, capacity: usize, item: T)
    ensures
        ({
            let r = push_spec(items, capacity, item);
            &&& r.last() == item
            &&& r.drop_last() == items.subrange(items.len() - (r.len() - 1), items.len() as int)
        }),
{
    let r = push_spec(items, capacity, item);
    assert(r.drop_last() =~= items.subrange(items.len() - (r.len() - 1), items.len() as int));
}

} // verus!
