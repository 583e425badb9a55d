use vstd::prelude::*;

verus! {

/// A queue of at most `capacity` items in a ring of `capacity + 1` slots:
/// `head` is the slot of the oldest item, `tail` the slot that the next
/// item goes to, and the slot before `head` is always free.
pub struct RingBuffer<T: Copy> {
    head: u16,
    tail: u16,
    capacity: u16,
    data: Vec<Option<T>>,
}

/// The slot `i` steps behind `head` in a ring of `slots` slots.
pub open spec fn slot_after(head: int, i: int, slots: int) -> int {
    if head + i < slots {
        head + i
    } else {
        head + i - slots
    }
}

/// The number of slots from `head` up to `tail`, around the ring.
pub open spec fn ring_distance(head: int, tail: int, slots: int) -> int {
    if tail >= head {
        tail - head
    } else {
        tail + slots - head
    }
}

impl<T: Copy> RingBuffer<T> {
    #[verifier::type_invariant]
    spec fn inv(self) -> bool {
        &&& self.data@.len() == self.capacity + 1
        &&& self.head <= self.capacity
        &&& self.tail <= self.capacity
        &&& forall|i: int|
            0 <= i < ring_distance(self.head as int, self.tail as int, self.capacity + 1) ==> (
            #[trigger] self.data@[slot_after(self.head as int, i, self.capacity + 1)]) is Some
    }

    /// The slot of the oldest item.
    pub closed spec fn spec_head(self) -> u16 {
        self.head
    }

    /// The slot that the next item goes to.
    pub closed spec fn spec_tail(self) -> u16 {
        self.tail
    }

    /// The number of items that fit.
    pub closed spec fn spec_capacity(self) -> u16 {
        self.capacity
    }

    /// Whether the buffer is in order; every buffer that executable code
    /// can hold is.
    pub closed spec fn wf(self) -> bool {
        self.inv()
    }

    /// What `len` returns: the distance from head to tail, counted in a
    /// ring of `capacity` slots. Where the tail has wrapped round behind the
    /// head this is one less than the number of items held.
    pub open spec fn spec_len(self) -> int {
        if self.spec_tail() < self.spec_head() {
            self.spec_tail() + self.spec_capacity() - self.spec_head()
        } else {
            self.spec_tail() - self.spec_head()
        }
    }

    /// The empty buffer for `capacity` items.
    pub fn new(capacity: u16) -> (r: Self)
        ensures
            r.wf(),
            r@ == Seq::<T>::empty(),
            r.spec_capacity() == capacity,
            r.spec_head() == 0,
            r.spec_tail() == 0,
    {
        let mut data: Vec<Option<T>> = Vec::new();
        let mut i: u32 = 0;
        while i <= capacity as u32
            invariant
                i <= capacity + 1,
                data@.len() == i,
            decreases capacity + 1 - i,
        {
            data.push(None);
            i += 1;
        }
        let r = Self { head: 0, tail: 0, capacity, data };
        r
    }

    // // LEN // //
    /// The distance from head to tail as `spec_len` counts it.
    pub fn len(&self) -> (r: usize)
        ensures
            r == self.spec_len(),
            self.spec_tail() >= self.spec_head() ==> r == self@.len(),
            self.spec_tail() < self.spec_head() ==> r + 1 == self@.len(),
    {
        proof {
            use_type_invariant(self);
        }
        let head: usize = self.head as usize;
        let tail: usize = self.tail as usize;
        let capacity: usize = self.capacity as usize;
        (if tail < head {
            tail + capacity
        } else {
            tail
        }) - head
    }

    /// Whether the buffer holds no item.
    pub fn is_empty(&self) -> (r: bool)
        ensures
            r == (self@.len() == 0),
            r == (self.spec_tail() == self.spec_head()),
    {
        proof {
            use_type_invariant(self);
        }
        self.tail == self.head
    }

    /// Whether the buffer holds as many items as fit.
    pub fn is_full(&self) -> (r: bool)
        ensures
            r == (self@.len() == self.spec_capacity()),
            r == (self.spec_tail() + 1 == self.spec_head() || (self.spec_tail()
                == self.spec_capacity() && self.spec_head() == 0)),
    {
        proof {
            use_type_invariant(self);
        }
        self.tail as u32 + 1 == self.head as u32 || self.tail == self.capacity && self.head == 0
    }
}

impl<T: Copy> View for RingBuffer<T> {
    type V = Seq<T>;

    /// The items, oldest first.
    closed spec fn view(&self) -> Seq<T> {
        Seq::new(
            ring_distance(self.head as int, self.tail as int, self.capacity + 1) as nat,
            |i: int| self.data@[slot_after(self.head as int, i, self.capacity + 1)].unwrap(),
        )
    }
}

impl<T: Copy> RingBuffer<T> {
    // // PUSH // //
    /// Appends `v` unless the buffer is full; tells whether it did.
    pub fn push(&mut self, v: T) -> (r: bool)
        ensures
            r == (old(self)@.len() < old(self).spec_capacity()),
            final(self).spec_capacity() == old(self).spec_capacity(),
            r ==> final(self)@ == old(self)@.push(v),
            !r ==> final(self)@ == old(self)@ && final(self).spec_head() == old(self).spec_head()
                && final(self).spec_tail() == old(self).spec_tail(),
    {
        proof {
            use_type_invariant(&*self);
        }
        if self.is_full() {
            return false;
        }
        self.push_unchecked(v);
        true
    }

    /// Appends `v` to a buffer that is not full.
    pub fn push_unchecked(&mut self, v: T)
        requires
            old(self)@.len() < old(self).spec_capacity(),
        ensures
            final(self)@ == old(self)@.push(v),
            final(self).spec_capacity() == old(self).spec_capacity(),
            final(self).spec_head() == old(self).spec_head(),
    {
        proof {
            use_type_invariant(&*self);
        }
        let ghost before = *self;
        let tail: usize = self.tail as usize;
        self.data[tail] = Some(v);
        self.advance_tail_unchecked();
        proof {
            let slots = before.capacity + 1;
            let count = ring_distance(before.head as int, before.tail as int, slots);
            assert forall|i: int| 0 <= i < count implies slot_after(before.head as int, i, slots)
                != before.tail by {}
        }
    }

    // // HEAD // //
    /// Drops the oldest item, if there is one; tells whether it did.
    pub fn advance_head(&mut self) -> (r: bool)
        ensures
            r == (old(self)@.len() > 0),
            final(self).spec_capacity() == old(self).spec_capacity(),
            r ==> final(self)@ == old(self)@.drop_first(),
            !r ==> final(self)@ == old(self)@,
    {
        proof {
            use_type_invariant(&*self);
        }
        if self.head != self.tail {
            self.advance_head_unchecked();
            true
        } else {
            false
        }
    }

    /// Drops the oldest item of a buffer that is not empty.
    pub fn advance_head_unchecked(&mut self)
        requires
            old(self)@.len() > 0,
        ensures
            final(self)@ == old(self)@.drop_first(),
            final(self).spec_capacity() == old(self).spec_capacity(),
            final(self).spec_tail() == old(self).spec_tail(),
            final(self).spec_head() == (if old(self).spec_head() == old(self).spec_capacity() {
                0
            } else {
                old(self).spec_head() + 1
            }),
    {
        proof {
            use_type_invariant(&*self);
        }
        let ghost before = *self;
        let next: u16 = if self.head == self.capacity {
            0
        } else {
            self.head + 1
        };
        proof {
            let slots = before.capacity + 1;
            let count = ring_distance(before.head as int, before.tail as int, slots);
            assert forall|i: int| 0 <= i < count - 1 implies slot_after(next as int, i, slots)
                == slot_after(before.head as int, i + 1, slots) by {}
            assert forall|i: int|
                0 <= i < ring_distance(next as int, before.tail as int, slots) implies (
            #[trigger] before.data@[slot_after(next as int, i, slots)]) is Some by {}
        }
        self.head = next;
    }

    // // POP // //
    /// Takes the oldest item out, if there is one.
    pub fn pop(&mut self) -> (r: Option<T>)
        ensures
            r == (if old(self)@.len() > 0 {
                Some(old(self)@[0])
            } else {
                None
            }),
            final(self).spec_capacity() == old(self).spec_capacity(),
            r is Some ==> final(self)@ == old(self)@.drop_first(),
            r is None ==> final(self)@ == old(self)@,
    {
        proof {
            use_type_invariant(&*self);
        }
        match self.head == self.tail {
            true => None,
            false => Some(self.pop_unchecked()),
        }
    }

    /// Takes the oldest item out of a buffer that is not empty.
    pub fn pop_unchecked(&mut self) -> (r: T)
        requires
            old(self)@.len() > 0,
        ensures
            r == old(self)@[0],
            final(self)@ == old(self)@.drop_first(),
            final(self).spec_capacity() == old(self).spec_capacity(),
    {
        let value: T = *self.peek_unchecked();
        self.advance_head_unchecked();
        value
    }

    // // PEEK // //
    /// The oldest item, if there is one.
    pub fn peek(&self) -> (r: Option<&T>)
        ensures
            r == (if self@.len() > 0 {
                Some(&self@[0])
            } else {
                None
            }),
    {
        proof {
            use_type_invariant(self);
        }
        match self.head == self.tail {
            true => None,
            false => Some(self.peek_unchecked()),
        }
    }

    /// The oldest item of a buffer that is not empty.
    pub fn peek_unchecked(&self) -> (r: &T)
        requires
            self@.len() > 0,
        ensures
            *r == self@[0],
    {
        proof {
            use_type_invariant(self);
            assert(self.data@[slot_after(self.head as int, 0, self.capacity + 1)] is Some);
        }
        self.data[self.head as usize].as_ref().unwrap()
    }

    // // INTERNAL // //
    fn advance_tail_unchecked(&mut self)
        requires
            old(self).data@[old(self).tail as int] is Some,
            ring_distance(
                old(self).head as int,
                old(self).tail as int,
                old(self).capacity + 1,
            ) < old(self).capacity,
        ensures
            final(self).head == old(self).head,
            final(self).capacity == old(self).capacity,
            final(self).data == old(self).data,
            final(self).tail == (if old(self).tail == old(self).capacity {
                0
            } else {
                old(self).tail + 1
            }),
    {
        proof {
            use_type_invariant(&*self);
        }
        let ghost before = *self;
        let next: u16 = if self.tail == self.capacity {
            0
        } else {
            self.tail + 1
        };
        proof {
            let slots = before.capacity + 1;
            let count = ring_distance(before.head as int, before.tail as int, slots);
            assert forall|i: int|
                0 <= i < ring_distance(before.head as int, next as int, slots) implies (
            #[trigger] before.data@[slot_after(before.head as int, i, slots)]) is Some by {}
        }
        self.tail = next;
    }

    /// The distance from head to tail where the tail lies behind the head
    /// in the ring without having wrapped, and nothing otherwise.
    pub fn get_forward_length(&self) -> (r: Option<u16>)
        ensures
            r == (if self.spec_tail() > self.spec_head() {
                Some((self.spec_tail() - self.spec_head()) as u16)
            } else {
                None
            }),
            r matches Some(n) ==> n == self@.len(),
    {
        proof {
            use_type_invariant(self);
        }
        if self.tail > self.head {
            Some(self.tail - self.head)
        } else {
            None
        }
    }
}

} // verus!
