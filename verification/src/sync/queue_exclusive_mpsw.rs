use vstd::prelude::*;

verus! {

/// The slots of a queue without order for many writers: each writer that
/// is borrowed gets the next of `N` slots in turn and appends to it, and a
/// reader walks all slots. Every operation takes the queue exclusively; to
/// share it between threads, a caller puts it behind a lock of its own.
pub struct QueueExclusiveMPSC<T, const N: usize> {
    index: usize,
    data: Vec<Vec<T>>,
}

/// Hands out writers without naming the number of slots.
pub trait QueueExclusiveMPSCWriterSource<T> {
    /// Whether a writer can be borrowed: there is a slot to write to.
    spec fn can_borrow(&self) -> bool;

    /// The items of each slot.
    spec fn slots(&self) -> Seq<Seq<T>>;

    /// The number of writers borrowed since the source was last cleared,
    /// counted round the range of `usize`.
    spec fn borrowed(&self) -> usize;

    /// A writer for the slot whose turn it is: the number of writers
    /// borrowed so far, modulo the number of slots. The writer starts with
    /// what the slot holds; what it holds when the writer is given back is
    /// what the slot holds then, and every other slot stays. The borrow is
    /// counted.
    fn borrow_writer(&mut self) -> (w: QueueExclusiveMPSCWriter<'_, T>)
        requires
            old(self).can_borrow(),
        ensures
            old(self).slots().len() > 0,
            w@ == old(self).slots()[old(self).borrowed() as int % old(self).slots().len() as int],
            final(self).slots() == old(self).slots().update(
                old(self).borrowed() as int % old(self).slots().len() as int,
                final(w.0)@,
            ),
            final(self).borrowed() == (if old(self).borrowed() == usize::MAX {
                0
            } else {
                old(self).borrowed() + 1
            }),
    ;
}

/// A writer that appends to one slot of the queue.
pub struct QueueExclusiveMPSCWriter<'a, T>(pub &'a mut Vec<T>);

impl<'a, T> View for QueueExclusiveMPSCWriter<'a, T> {
    type V = Seq<T>;

    open spec fn view(&self) -> Seq<T> {
        self.0@
    }
}

impl<'a, T> QueueExclusiveMPSCWriter<'a, T> {
    /// Inserts `v` into the queue: the item goes behind what the slot
    /// holds, and the writer stays with its slot.
    pub fn insert(&mut self, v: T)
        ensures
            final(self)@ == old(self)@.push(v),
            *final(final(self).0) == *final(old(self).0),
    {
        self.0.push(v)
    }
}

impl<T, const N: usize> View for QueueExclusiveMPSC<T, N> {
    type V = Seq<Seq<T>>;

    closed spec fn view(&self) -> Seq<Seq<T>> {
        Seq::new(self.data@.len(), |i: int| self.data@[i]@)
    }
}

impl<T, const N: usize> QueueExclusiveMPSC<T, N> {
    #[verifier::type_invariant]
    spec fn inv(self) -> bool {
        self.data@.len() == N
    }

    /// Borrows a writer for the slot whose turn it is: the number of
    /// writers borrowed so far, modulo `N`.
    pub fn borrow_writer(&mut self) -> (w: QueueExclusiveMPSCWriter<'_, T>)
        requires
            N > 0,
        ensures
            w@ == old(self)@[(old(self).spec_acquisitions() % N) as int],
            final(self)@ == old(self)@.update(
                (old(self).spec_acquisitions() % N) as int,
                final(w.0)@,
            ),
            final(self).spec_acquisitions() == (if old(self).spec_acquisitions() == usize::MAX {
                0
            } else {
                old(self).spec_acquisitions() + 1
            }),
    {
        proof {
            use_type_invariant(&*self);
        }
        let slot: usize = self.index % N;
        self.index = if self.index == usize::MAX {
            0
        } else {
            self.index + 1
        };
        QueueExclusiveMPSCWriter(&mut self.data[slot])
    }
}

/// The number of items in all of `slots`.
pub open spec fn total_len<T>(slots: Seq<Seq<T>>) -> int
    decreases slots.len(),
{
    if slots.len() == 0 {
        0
    } else {
        total_len(slots.drop_last()) + slots.last().len()
    }
}

/// The number of `slots` that hold an item.
pub open spec fn used_slots<T>(slots: Seq<Seq<T>>) -> int
    decreases slots.len(),
{
    if slots.len() == 0 {
        0
    } else {
        used_slots(slots.drop_last()) + if slots.last().len() > 0 {
            1int
        } else {
            0int
        }
    }
}

/// One more than the number of the last of `slots` that holds an item, and
/// zero where none does.
pub open spec fn last_used_slot<T>(slots: Seq<Seq<T>>) -> int
    decreases slots.len(),
{
    if slots.len() == 0 {
        0
    } else if slots.last().len() > 0 {
        slots.len() as int
    } else {
        last_used_slot(slots.drop_last())
    }
}

/// The slots hold at least as many items as there are slots in use.
pub proof fn lemma_used_slots_bound<T>(slots: Seq<Seq<T>>)
    ensures
        0 <= used_slots(slots) <= slots.len(),
        used_slots(slots) <= total_len(slots),
        0 <= last_used_slot(slots) <= slots.len(),
        used_slots(slots) <= last_used_slot(slots),
        total_len(slots) == 0 <==> used_slots(slots) == 0,
    decreases slots.len(),
{
    if slots.len() > 0 {
        lemma_used_slots_bound(slots.drop_last());
    }
}

/// `Vec::capacity`: the room that the vector has; nothing is claimed of
/// the number.
#[verifier::external_body]
fn capacity_of<T>(v: &Vec<T>) -> (r: usize) {
    v.capacity()
}

impl<T, const N: usize> Default for QueueExclusiveMPSC<T, N> {
    fn default() -> (r: Self)
        ensures
            r@ == Seq::new(N as nat, |i: int| Seq::<T>::empty()),
            r.spec_acquisitions() == 0,
    {
        let mut data: Vec<Vec<T>> = Vec::new();
        let mut i: usize = 0;
        while i < N
            invariant
                i <= N,
                data@.len() == i,
                forall|k: int| 0 <= k < i ==> (#[trigger] data@[k])@ == Seq::<T>::empty(),
            decreases N - i,
        {
            data.push(Vec::new());
            i += 1;
        }
        let r = Self { index: 0, data };
        r
    }
}

impl<T, const N: usize> QueueExclusiveMPSCWriterSource<T> for QueueExclusiveMPSC<T, N> {
    open spec fn can_borrow(&self) -> bool {
        N > 0
    }

    open spec fn slots(&self) -> Seq<Seq<T>> {
        self@
    }

    open spec fn borrowed(&self) -> usize {
        self.spec_acquisitions()
    }

    fn borrow_writer(&mut self) -> (w: QueueExclusiveMPSCWriter<'_, T>) {
        proof {
            use_type_invariant(&*self);
        }
        QueueExclusiveMPSC::borrow_writer(self)
    }
}

impl<T, const N: usize> QueueExclusiveMPSC<T, N> {
    /// Clears the queue of all data and starts the turns of the slots anew.
    pub fn clear(&mut self)
        ensures
            final(self)@ == Seq::new(N as nat, |i: int| Seq::<T>::empty()),
            final(self).spec_acquisitions() == 0,
    {
        proof {
            use_type_invariant(&*self);
        }
        self.index = 0;  // Reset to 0, should reduce reallocations on insert
        let mut i: usize = 0;
        while i < N
            invariant
                i <= N,
                self.data@.len() == N,
                self.index == 0,
                forall|k: int| 0 <= k < i ==> (#[trigger] self.data@[k])@ == Seq::<T>::empty(),
            decreases N - i,
        {
            self.data[i].clear();
            i += 1;
        }
    }

    /// Takes the contents of all slots out and leaves each slot empty, with
    /// the room that it had.
    pub fn take(&mut self) -> (r: Vec<Vec<T>>)
        ensures
            r@.len() == N,
            forall|i: int| 0 <= i < N ==> (#[trigger] r@[i])@ == old(self)@[i],
            final(self)@ == Seq::new(N as nat, |i: int| Seq::<T>::empty()),
            final(self).spec_acquisitions() == old(self).spec_acquisitions(),
    {
        proof {
            use_type_invariant(&*self);
        }
        let mut taken: Vec<Vec<T>> = Vec::new();
        let mut idx: usize = 0;
        while idx < N
            invariant
                idx <= N,
                self.data@.len() == N,
                self.index == old(self).index,
                taken@.len() == idx,
                forall|k: int| 0 <= k < idx ==> (#[trigger] taken@[k])@ == old(self)@[k],
                forall|k: int| 0 <= k < idx ==> (#[trigger] self.data@[k])@ == Seq::<T>::empty(),
                forall|k: int| idx <= k < N ==> (#[trigger] self.data@[k])@ == old(self)@[k],
            decreases N - idx,
        {
            // Replace with matching capacity to reduce reallocations
            let mut slot: Vec<T> = Vec::with_capacity(capacity_of(&self.data[idx]));
            core::mem::swap(&mut self.data[idx], &mut slot);
            taken.push(slot);
            idx += 1;
        }
        taken
    }

    /// The number of items in all slots.
    pub fn len(&mut self) -> (r: usize)
        requires
            total_len(old(self)@) <= usize::MAX,
        ensures
            r == total_len(old(self)@),
            *final(self) == *old(self),
    {
        proof {
            use_type_invariant(&*self);
        }
        let ghost slots = self@;
        let mut sum: usize = 0;
        let mut i: usize = 0;
        while i < N
            invariant
                i <= N,
                self.data@.len() == N,
                slots == self@,
                slots.len() == N,
                total_len(slots) <= usize::MAX,
                sum == total_len(slots.take(i as int)),
                *self == *old(self),
            decreases N - i,
        {
            proof {
                assert(slots.take(i + 1).drop_last() =~= slots.take(i as int));
                lemma_total_len_grows(slots, i + 1);
            }
            sum += self.data[i].len();
            i += 1;
        }
        proof {
            assert(slots.take(N as int) =~= slots);
        }
        sum
    }

    /// Whether no slot holds an item.
    pub fn is_empty(&mut self) -> (r: bool)
        requires
            total_len(old(self)@) <= usize::MAX,
        ensures
            r == (total_len(old(self)@) == 0),
            *final(self) == *old(self),
    {
        self.len() == 0
    }
}

/// The first slots hold no more than all of them.
proof fn lemma_total_len_grows<T>(slots: Seq<Seq<T>>, k: int)
    requires
        0 <= k <= slots.len(),
    ensures
        total_len(slots.take(k)) <= total_len(slots),
    decreases slots.len() - k,
{
    if k < slots.len() {
        lemma_total_len_grows(slots, k + 1);
        assert(slots.take(k + 1).drop_last() =~= slots.take(k));
    } else {
        assert(slots.take(k) =~= slots);
    }
}

// Functions only provided for diagnostics/ahead-of-time-optimization
impl<T, const N: usize> QueueExclusiveMPSC<T, N> {
    /// The number of writers borrowed since the queue was last cleared,
    /// counted round the range of `usize`.
    pub closed spec fn spec_acquisitions(&self) -> usize {
        self.index
    }

    /// The number of writers borrowed since the queue was last cleared,
    /// counted round the range of `usize`.
    #[verifier::when_used_as_spec(spec_acquisitions)]
    pub fn acquisitions(&self) -> (r: usize)
        ensures
            r == self.spec_acquisitions(),
    {
        self.index
    }

    /// The number of slots that hold an item.
    pub fn used_writers(&mut self) -> (r: usize)
        ensures
            r == used_slots(old(self)@),
            *final(self) == *old(self),
    {
        proof {
            use_type_invariant(&*self);
        }
        let ghost slots = self@;
        let mut used: usize = 0;
        let mut i: usize = 0;
        while i < N
            invariant
                i <= N,
                self.data@.len() == N,
                slots == self@,
                slots.len() == N,
                used == used_slots(slots.take(i as int)),
                used <= i,
                *self == *old(self),
            decreases N - i,
        {
            proof {
                assert(slots.take(i + 1).drop_last() =~= slots.take(i as int));
            }
            used = used + if self.data[i].is_empty() {
                0
            } else {
                1
            };
            i += 1;
        }
        proof {
            assert(slots.take(N as int) =~= slots);
        }
        used
    }

    /// One more than the number of the last slot that holds an item, and
    /// zero where no slot holds one.
    pub fn max_writers(&mut self) -> (r: usize)
        ensures
            r == last_used_slot(old(self)@),
            *final(self) == *old(self),
    {
        proof {
            use_type_invariant(&*self);
        }
        let ghost slots = self@;
        let mut last: usize = 0;
        let mut i: usize = 0;
        while i < N
            invariant
                i <= N,
                self.data@.len() == N,
                slots == self@,
                slots.len() == N,
                last == last_used_slot(slots.take(i as int)),
                *self == *old(self),
            decreases N - i,
        {
            proof {
                assert(slots.take(i + 1).drop_last() =~= slots.take(i as int));
            }
            if !self.data[i].is_empty() {
                last = i + 1;
            }
            i += 1;
        }
        proof {
            assert(slots.take(N as int) =~= slots);
        }
        last
    }
}

/// The items of all `slots`, slot after slot.
pub open spec fn all_items<T>(slots: Seq<Seq<T>>) -> Seq<T>
    decreases slots.len(),
{
    if slots.len() == 0 {
        Seq::empty()
    } else {
        all_items(slots.drop_last()) + slots.last()
    }
}

impl<T, const N: usize> QueueExclusiveMPSC<T, N> {
    /// The items of all slots, slot after slot, each by reference.
    pub fn iter(&mut self) -> (r: Vec<&T>)
        ensures
            r@.len() == all_items(old(self)@).len(),
            forall|i: int| 0 <= i < r@.len() ==> *(#[trigger] r@[i]) == all_items(old(self)@)[i],
            *final(self) == *old(self),
    {
        proof {
            use_type_invariant(&*self);
        }
        let ghost slots = self@;
        let mut items: Vec<&T> = Vec::new();
        let mut i: usize = 0;
        while i < N
            invariant
                i <= N,
                self.data@.len() == N,
                slots == self@,
                slots.len() == N,
                *self == *old(self),
                items@.len() == all_items(slots.take(i as int)).len(),
                forall|k: int|
                    0 <= k < items@.len() ==> *(#[trigger] items@[k]) == all_items(
                        slots.take(i as int),
                    )[k],
            decreases N - i,
        {
            let slot: &Vec<T> = &self.data[i];
            let ghost done = all_items(slots.take(i as int));
            let mut j: usize = 0;
            while j < slot.len()
                invariant
                    j <= slot@.len(),
                    slot@ == slots[i as int],
                    items@.len() == done.len() + j,
                    forall|k: int|
                        0 <= k < items@.len() ==> *(#[trigger] items@[k]) == (done + slot@)[k],
                decreases slot@.len() - j,
            {
                items.push(&slot[j]);
                j += 1;
            }
            proof {
                assert(slots.take(i + 1).drop_last() =~= slots.take(i as int));
                assert(slots.take(i + 1).last() == slot@);
            }
            i += 1;
        }
        proof {
            assert(slots.take(N as int) =~= slots);
        }
        items
    }
}

} // verus!
