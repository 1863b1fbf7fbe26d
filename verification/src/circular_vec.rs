//! A buffer of fixed capacity that keeps the newest items: once it is full,
//! each push drops the oldest item.

use vstd::prelude::*;

verus! {

/// What a push makes of the items `items` of a buffer of capacity
/// `capacity`: the new item joins at the end, and the oldest item leaves if
/// the buffer was full.
pub open spec fn pushed<T>(items: Seq<T>, capacity: nat, item: T) -> Seq<T> {
    if items.len() < capacity {
        items.push(item)
    } else {
        items.skip(1).push(item)
    }
}

/// What pushing each of `more`, in order, makes of `items`.
pub open spec fn pushed_all<T>(items: Seq<T>, capacity: nat, more: Seq<T>) -> Seq<T>
    decreases more.len(),
{
    if more.len() == 0 {
        items
    } else {
        pushed(pushed_all(items, capacity, more.drop_last()), capacity, more.last())
    }
}

/// The last `count` items of `items`, or all of them if there are fewer.
pub open spec fn newest<T>(items: Seq<T>, count: nat) -> Seq<T> {
    if items.len() <= count {
        items
    } else {
        items.skip(items.len() - count)
    }
}

/// Pushing any run of items leaves the newest `capacity` of all the items
/// that the buffer held or was given, in the order of their pushes.
pub proof fn lemma_pushes_keep_newest<T>(items: Seq<T>, capacity: nat, more: Seq<T>)
    requires
        capacity > 0,
        items.len() <= capacity,
    ensures
        pushed_all(items, capacity, more) == newest(items + more, capacity),
    decreases more.len(),
{
    if more.len() > 0 {
        lemma_pushes_keep_newest(items, capacity, more.drop_last());
    }
}

/// Pushing `capacity + extra` items into an empty buffer fills it with the
/// last `capacity` of them, in the order of their pushes.
pub proof fn lemma_overwrite<T>(capacity: nat, more: Seq<T>)
    requires
        capacity > 0,
        more.len() >= capacity,
    ensures
        pushed_all(Seq::<T>::empty(), capacity, more).len() == capacity,
        pushed_all(Seq::<T>::empty(), capacity, more) == more.skip(more.len() - capacity),
{
    lemma_pushes_keep_newest(Seq::<T>::empty(), capacity, more);
}

/// A buffer of fixed capacity that overwrites its oldest item when full.
pub struct CircularVec<T> {
    data: Vec<T>,
    capacity: usize,
    head: usize,
}

impl<T> View for CircularVec<T> {
    type V = Seq<T>;

    /// The items from oldest to newest.
    closed spec fn view(&self) -> Seq<T> {
        if self.data@.len() < self.capacity {
            self.data@
        } else {
            self.data@.skip(self.head as int) + self.data@.take(self.head as int)
        }
    }
}

impl<T> CircularVec<T> {
    /// The slots are within the capacity, and the next slot to write is the
    /// one after the newest item.
    pub closed spec fn wf(&self) -> bool {
        &&& self.capacity > 0
        &&& self.data@.len() <= self.capacity
        &&& self.head < self.capacity
        &&& self.data@.len() < self.capacity ==> self.head == self.data@.len()
    }

    /// The number of items that the buffer can hold.
    pub closed spec fn spec_capacity(&self) -> nat {
        self.capacity as nat
    }

    /// A well-formed buffer holds no more than its capacity, which is not zero.
    pub proof fn lemma_len_within_capacity(&self)
        requires
            self.wf(),
        ensures
            self@.len() <= self.spec_capacity(),
            self.spec_capacity() > 0,
    {
    }

    /// An empty buffer for up to `capacity` items.
    pub fn new(capacity: usize) -> (buffer: Self)
        requires
            capacity > 0,
        ensures
            buffer.wf(),
            buffer@ == Seq::<T>::empty(),
            buffer.spec_capacity() == capacity,
    {
        CircularVec { data: Vec::new(), capacity, head: 0 }
    }

    /// Adds `item` as the newest; a full buffer drops its oldest item.
    pub fn push(&mut self, item: T)
        requires
            old(self).wf(),
        ensures
            final(self).wf(),
            final(self).spec_capacity() == old(self).spec_capacity(),
            final(self)@ == pushed(old(self)@, old(self).spec_capacity(), item),
    {
        if self.data.len() < self.capacity {
            self.data.push(item);
        } else {
            self.data.set(self.head, item);
        }
        proof {
            if self.head + 1 < self.capacity {
                vstd::arithmetic::div_mod::lemma_small_mod(
                    (self.head + 1) as nat,
                    self.capacity as nat,
                );
            } else {
                vstd::arithmetic::div_mod::lemma_mod_self_0(self.capacity as int);
            }
        }
        self.head = (self.head + 1) % self.capacity;
    }

    /// The item at `index`, counted from the oldest; none beyond the newest.
    pub fn get(&self, index: usize) -> (item: Option<&T>)
        requires
            self.wf(),
        ensures
            index < self@.len() ==> item == Some(&self@[index as int]),
            index >= self@.len() ==> item is None,
    {
        if index >= self.data.len() {
            return None;
        }
        let slot = if self.data.len() == self.capacity {
            let room = self.capacity - self.head;
            if index < room {
                self.head + index
            } else {
                index - room
            }
        } else {
            index
        };
        Some(&self.data[slot])
    }

    /// The number of items held.
    pub fn len(&self) -> (len: usize)
        requires
            self.wf(),
        ensures
            len == self@.len(),
    {
        self.data.len()
    }

    /// The number of items that the buffer can hold.
    pub fn capacity(&self) -> (capacity: usize)
        ensures
            capacity == self.spec_capacity(),
    {
        self.capacity
    }

    /// Whether the buffer holds nothing.
    pub fn is_empty(&self) -> (empty: bool)
        requires
            self.wf(),
        ensures
            empty == (self@.len() == 0),
    {
        self.data.len() == 0
    }

    /// A walk over the items, from either end.
    pub fn iter(&self) -> (iter: CircularVecIter<'_, T>)
        requires
            self.wf(),
        ensures
            iter@ == self@,
    {
        CircularVecIter { cv: self, front: 0, back: self.data.len() }
    }

    /// Whether the next push drops an item.
    pub fn is_full(&self) -> (full: bool)
        requires
            self.wf(),
        ensures
            full == (self@.len() == self.spec_capacity()),
    {
        self.data.len() == self.capacity
    }
}

/// What taking items from the front, one by one, yields.
pub open spec fn front_walk<T>(items: Seq<T>) -> Seq<T>
    decreases items.len(),
{
    if items.len() == 0 {
        items
    } else {
        seq![items.first()] + front_walk(items.drop_first())
    }
}

/// What taking items from the back, one by one, yields.
pub open spec fn back_walk<T>(items: Seq<T>) -> Seq<T>
    decreases items.len(),
{
    if items.len() == 0 {
        items
    } else {
        seq![items.last()] + back_walk(items.drop_last())
    }
}

/// The walk from the front yields the items in their order, and the walk
/// from the back yields the same items in the opposite order: each walk is
/// the other one reversed.
pub proof fn lemma_walks_mirror<T>(items: Seq<T>)
    ensures
        front_walk(items) == items,
        back_walk(items) == items.reverse(),
        back_walk(items).reverse() == front_walk(items),
        front_walk(items).reverse() == back_walk(items),
    decreases items.len(),
{
    if items.len() > 0 {
        lemma_walks_mirror(items.drop_first());
        lemma_walks_mirror(items.drop_last());
    }
}

/// A walk over the items of a buffer that can take from both ends; what it
/// has not yet taken is its view, from oldest to newest.
pub struct CircularVecIter<'a, T> {
    cv: &'a CircularVec<T>,
    front: usize,
    back: usize,
}

impl<'a, T> View for CircularVecIter<'a, T> {
    type V = Seq<T>;

    closed spec fn view(&self) -> Seq<T> {
        self.cv@.subrange(self.front as int, self.back as int)
    }
}

impl<'a, T> CircularVecIter<'a, T> {
    #[verifier::type_invariant]
    spec fn well_formed(&self) -> bool {
        self.cv.wf() && self.front <= self.back <= self.cv@.len()
    }

    /// Takes the oldest item not yet taken.
    pub fn next(&mut self) -> (item: Option<&'a T>)
        ensures
            old(self)@.len() == 0 ==> item is None && final(self)@ == old(self)@,
            old(self)@.len() > 0 ==> item == Some(&old(self)@.first()) && final(self)@ == old(
                self,
            )@.drop_first(),
    {
        proof {
            use_type_invariant(&*self);
        }
        if self.front >= self.back {
            return None;
        }
        let item = self.cv.get(self.front);
        self.front = self.front + 1;
        item
    }

    /// Takes the newest item not yet taken.
    pub fn next_back(&mut self) -> (item: Option<&'a T>)
        ensures
            old(self)@.len() == 0 ==> item is None && final(self)@ == old(self)@,
            old(self)@.len() > 0 ==> item == Some(&old(self)@.last()) && final(self)@ == old(
                self,
            )@.drop_last(),
    {
        proof {
            use_type_invariant(&*self);
        }
        if self.front >= self.back {
            return None;
        }
        self.back = self.back - 1;
        let item = self.cv.get(self.back);
        item
    }

    /// The items not yet taken, oldest first.
    pub fn collect(self) -> (items: Vec<&'a T>)
        ensures
            items@.len() == self@.len(),
            forall|i: int| 0 <= i < items@.len() ==> *(#[trigger] items@[i]) == self@[i],
    {
        let mut iter = self;
        let mut items: Vec<&'a T> = Vec::new();
        loop
            invariant
                items@.len() + iter@.len() == self@.len(),
                forall|i: int| 0 <= i < items@.len() ==> *(#[trigger] items@[i]) == self@[i],
                forall|i: int| 0 <= i < iter@.len() ==> iter@[i] == self@[items@.len() + i],
            decreases iter@.len(),
        {
            match iter.next() {
                Some(item) => {
                    items.push(item);
                },
                None => {
                    return items;
                },
            }
        }
    }

    /// The same walk with its ends exchanged.
    pub fn rev(self) -> (reversed: CircularVecRevIter<'a, T>)
        ensures
            reversed@ == self@.reverse(),
    {
        CircularVecRevIter { inner: self }
    }
}

/// A walk over the items of a buffer from newest to oldest; what it has not
/// yet taken is its view, from newest to oldest.
pub struct CircularVecRevIter<'a, T> {
    inner: CircularVecIter<'a, T>,
}

impl<'a, T> View for CircularVecRevIter<'a, T> {
    type V = Seq<T>;

    closed spec fn view(&self) -> Seq<T> {
        self.inner@.reverse()
    }
}

impl<'a, T> CircularVecRevIter<'a, T> {
    /// Takes the newest item not yet taken.
    pub fn next(&mut self) -> (item: Option<&'a T>)
        ensures
            old(self)@.len() == 0 ==> item is None && final(self)@ == old(self)@,
            old(self)@.len() > 0 ==> item == Some(&old(self)@.first()) && final(self)@ == old(
                self,
            )@.drop_first(),
    {
        let item = self.inner.next_back();
        item
    }

    /// Takes the oldest item not yet taken.
    pub fn next_back(&mut self) -> (item: Option<&'a T>)
        ensures
            old(self)@.len() == 0 ==> item is None && final(self)@ == old(self)@,
            old(self)@.len() > 0 ==> item == Some(&old(self)@.last()) && final(self)@ == old(
                self,
            )@.drop_last(),
    {
        let item = self.inner.next();
        item
    }

    /// The items not yet taken, newest first.
    pub fn collect(self) -> (items: Vec<&'a T>)
        ensures
            items@.len() == self@.len(),
            forall|i: int| 0 <= i < items@.len() ==> *(#[trigger] items@[i]) == self@[i],
    {
        let mut iter = self;
        let mut items: Vec<&'a T> = Vec::new();
        loop
            invariant
                items@.len() + iter@.len() == self@.len(),
                forall|i: int| 0 <= i < items@.len() ==> *(#[trigger] items@[i]) == self@[i],
                forall|i: int| 0 <= i < iter@.len() ==> iter@[i] == self@[items@.len() + i],
            decreases iter@.len(),
        {
            match iter.next() {
                Some(item) => {
                    items.push(item);
                },
                None => {
                    return items;
                },
            }
        }
    }
}

} // verus!
