use crate::traits::{pop_spec, push_spec, wrap};
use vstd::prelude::*;

verus! {

/// A single-producer/single-consumer ring buffer of `N` slots.
///
/// The values held are the slots from `tail` up to (not including) `head`,
/// circularly. One slot always stays free, so that `head == tail` means empty
/// and `head + 1 == tail` (circularly) means full: at most `N - 1` values fit.
/// The producer only moves `head` and the consumer only moves `tail`; whoever
/// shares the buffer between two threads passes it between them under
/// exclusive access.
pub struct RingBuffer<T, const N: usize> {
    buffer: Vec<Option<T>>,
    head: usize,
    tail: usize,
}

impl<T, const N: usize> RingBuffer<T, N> {
    /// The slot that holds the `k`-th oldest value.
    pub closed spec fn slot(&self, k: int) -> int {
        wrap(self.tail + k, N as int)
    }

    /// How many values are held.
    pub closed spec fn count(&self) -> int {
        if self.tail <= self.head {
            self.head - self.tail
        } else {
            self.head + N - self.tail
        }
    }

    /// Exactly the slots from `tail` up to `head` are occupied.
    pub closed spec fn wf(&self) -> bool {
        &&& N > 0
        &&& self.buffer@.len() == N
        &&& self.head < N
        &&& self.tail < N
        &&& forall|k: int| 0 <= k < self.count() ==> (#[trigger] self.buffer@[self.slot(k)]) is Some
        &&& forall|k: int| self.count() <= k < N ==> (#[trigger] self.buffer@[self.slot(k)]) is None
    }

    /// Creates an empty buffer of `N` slots, of which `N - 1` can hold values.
    pub fn new() -> (r: Self)
        requires
            N > 0,
        ensures
            r.wf(),
            r@ == Seq::<T>::empty(),
    {
        let mut buffer: Vec<Option<T>> = Vec::new();
        let mut i: usize = 0;
        while i < N
            invariant
                i <= N,
                buffer@.len() == i,
                forall|j: int| 0 <= j < i ==> (#[trigger] buffer@[j]) is None,
            decreases N - i,
        {
            buffer.push(None);
            i = i + 1;
        }
        let r = RingBuffer { buffer, head: 0, tail: 0 };
        assert(r@ =~= Seq::<T>::empty());
        r
    }

    /// Producer side: appends `value`, or hands it back unchanged when `N - 1`
    /// values are held already.
    pub fn push(&mut self, value: T) -> (r: Result<(), T>)
        requires
            old(self).wf(),
        ensures
            final(self).wf(),
            (final(self)@, r) == push_spec(old(self)@, (N - 1) as nat, value),
    {
        let head = self.head;
        let next = if head + 1 == N { 0 } else { head + 1 };
        if next == self.tail {
            return Err(value);
        }
        let ghost before = *self;
        assert(head == before.slot(before.count()));
        self.buffer.set(head, Some(value));
        self.head = next;
        assert(self.count() == before.count() + 1);
        assert forall|k: int| 0 <= k < self.count() implies (#[trigger] self.buffer@[self.slot(k)]) is Some by {
            if k < before.count() {
                assert(before.buffer@[before.slot(k)] is Some);
            }
        }
        assert forall|k: int| self.count() <= k < N implies (#[trigger] self.buffer@[self.slot(k)]) is None by {
            assert(before.buffer@[before.slot(k)] is None);
        }
        assert(self@ =~= before@.push(value)) by {
            assert forall|k: int| 0 <= k < before.count() implies self.buffer@[self.slot(k)] == before.buffer@[before.slot(k)] by {}
        }
        Ok(())
    }

    /// Consumer side: removes and returns the oldest value, or `None` when the
    /// buffer is empty.
    pub fn pop(&mut self) -> (r: Option<T>)
        requires
            old(self).wf(),
        ensures
            final(self).wf(),
            (final(self)@, r) == pop_spec(old(self)@),
    {
        let tail = self.tail;
        if tail == self.head {
            return None;
        }
        let ghost before = *self;
        assert(self.buffer@[self.slot(0)] is Some);
        let mut value: Option<T> = None;
        self.buffer.set_and_swap(tail, &mut value);
        self.tail = if tail + 1 == N { 0 } else { tail + 1 };
        assert(self.count() == before.count() - 1);
        assert forall|k: int| 0 <= k < self.count() implies (#[trigger] self.buffer@[self.slot(k)]) is Some by {
            assert(self.slot(k) == before.slot(k + 1));
            assert(before.buffer@[before.slot(k + 1)] is Some);
        }
        assert forall|k: int| self.count() <= k < N implies (#[trigger] self.buffer@[self.slot(k)]) is None by {
            if k < N - 1 {
                assert(self.slot(k) == before.slot(k + 1));
                assert(before.buffer@[before.slot(k + 1)] is None);
            } else {
                assert(self.slot(k) == tail);
            }
        }
        assert(self@ =~= before@.drop_first()) by {
            assert forall|k: int| 0 <= k < self.count() implies self.buffer@[self.slot(k)] == before.buffer@[before.slot(k + 1)] by {
                assert(self.slot(k) == before.slot(k + 1));
            }
        }
        value
    }
}

impl<T, const N: usize> View for RingBuffer<T, N> {
    type V = Seq<T>;

    /// The values held, oldest first.
    closed spec fn view(&self) -> Seq<T> {
        Seq::new(self.count() as nat, |k: int| self.buffer@[self.slot(k)]->0)
    }
}

} // verus!
