use crate::traits::{wrap, Buffer};
use vstd::prelude::*;

verus! {

/// An owning ring buffer of `N` slots, each empty or holding one value.
pub struct RingBuffer<T, const N: usize> {
    data: Vec<Option<T>>,
    head: usize,
    tail: usize,
    len: usize,
}

impl<T, const N: usize> RingBuffer<T, N> {
    /// The slot that holds the `k`-th oldest value.
    pub closed spec fn slot(&self, k: int) -> int {
        wrap(self.tail + k, N as int)
    }

    /// Exactly the `len` slots from `tail` on (circularly) are occupied, and
    /// `head` is the slot right after them.
    pub closed spec fn wf(&self) -> bool {
        &&& N > 0
        &&& self.data@.len() == N
        &&& self.tail < N
        &&& self.len <= N
        &&& self.head == wrap(self.tail + self.len, N as int)
        &&& forall|k: int| 0 <= k < self.len ==> (#[trigger] self.data@[self.slot(k)]) is Some
        &&& forall|k: int| self.len <= k < N ==> (#[trigger] self.data@[self.slot(k)]) is None
    }

    /// Creates an empty buffer of `N` slots.
    pub fn new() -> (r: Self)
        requires
            N > 0,
        ensures
            r.wf(),
            r@ == Seq::<T>::empty(),
    {
        let mut data: Vec<Option<T>> = Vec::new();
        let mut i: usize = 0;
        while i < N
            invariant
                i <= N,
                data@.len() == i,
                forall|j: int| 0 <= j < i ==> (#[trigger] data@[j]) is None,
            decreases N - i,
        {
            data.push(None);
            i = i + 1;
        }
        let r = RingBuffer { data, head: 0, tail: 0, len: 0 };
        assert(r@ =~= Seq::<T>::empty());
        r
    }
}

impl<T, const N: usize> View for RingBuffer<T, N> {
    type V = Seq<T>;

    /// The values held, oldest first.
    closed spec fn view(&self) -> Seq<T> {
        Seq::new(self.len as nat, |k: int| self.data@[self.slot(k)]->0)
    }
}

impl<T, const N: usize> Buffer<T> for RingBuffer<T, N> {
    open spec fn contents(&self) -> Seq<T> {
        self@
    }

    open spec fn limit(&self) -> nat {
        N as nat
    }

    open spec fn well_formed(&self) -> bool {
        self.wf()
    }

    fn capacity(&self) -> (r: usize) {
        N
    }

    fn len(&self) -> (r: usize) {
        self.len
    }

    fn push(&mut self, value: T) -> (r: Result<(), T>) {
        if self.len == N {
            return Err(value);
        }
        let ghost before = *self;
        let head = self.head;
        assert(self.data@[self.slot(self.len as int)] is None);
        self.data.set(head, Some(value));
        self.head = if head + 1 == N { 0 } else { head + 1 };
        self.len = self.len + 1;
        assert forall|k: int| 0 <= k < self.len implies (#[trigger] self.data@[self.slot(k)]) is Some by {
            if k < before.len {
                assert(before.data@[before.slot(k)] is Some);
            }
        }
        assert forall|k: int| self.len <= k < N implies (#[trigger] self.data@[self.slot(k)]) is None by {
            assert(before.data@[before.slot(k)] is None);
        }
        assert(self@ =~= before@.push(value)) by {
            assert forall|k: int| 0 <= k < before.len implies self.data@[self.slot(k)] == before.data@[before.slot(k)] by {}
        }
        Ok(())
    }

    fn pop(&mut self) -> (r: Option<T>) {
        if self.len == 0 {
            return None;
        }
        let ghost before = *self;
        let tail = self.tail;
        assert(self.data@[self.slot(0)] is Some);
        let mut value: Option<T> = None;
        self.data.set_and_swap(tail, &mut value);
        self.tail = if tail + 1 == N { 0 } else { tail + 1 };
        self.len = self.len - 1;
        assert forall|k: int| 0 <= k < self.len implies (#[trigger] self.data@[self.slot(k)]) is Some by {
            assert(self.slot(k) == before.slot(k + 1));
            assert(before.data@[before.slot(k + 1)] is Some);
        }
        assert forall|k: int| self.len <= k < N implies (#[trigger] self.data@[self.slot(k)]) is None by {
            if k < N - 1 {
                assert(self.slot(k) == before.slot(k + 1));
                assert(before.data@[before.slot(k + 1)] is None);
            } else {
                assert(self.slot(k) == tail);
            }
        }
        assert(self@ =~= before@.drop_first()) by {
            assert forall|k: int| 0 <= k < self.len implies self.data@[self.slot(k)] == before.data@[before.slot(k + 1)] by {
                assert(self.slot(k) == before.slot(k + 1));
            }
        }
        value
    }
}

/// The overlapping windows of width `w` over `s`, oldest first, each advanced
/// by one position from the one before.
pub open spec fn windows_of<T>(s: Seq<T>, w: nat) -> Seq<Seq<T>> {
    Seq::new((s.len() - w + 1) as nat, |i: int| s.subrange(i, i + w))
}

/// A read-only cursor over a ring buffer's values, oldest first.
pub struct RingBufferIter<'a, T, const N: usize> {
    buffer: &'a RingBuffer<T, N>,
    index: usize,
    remaining: usize,
}

impl<T, const N: usize> RingBuffer<T, N> {
    /// A cursor over the values held now, oldest first.
    pub fn iter(&self) -> (r: RingBufferIter<'_, T, N>)
        requires
            self.wf(),
        ensures
            r.wf(),
            r.source() == self@,
            r@ == self@,
    {
        let r = RingBufferIter { buffer: self, index: self.tail, remaining: self.len };
        assert(r@ =~= self@);
        r
    }
}

impl<'a, T, const N: usize> RingBufferIter<'a, T, N> {
    /// The contents of the buffer being read.
    pub closed spec fn source(&self) -> Seq<T> {
        self.buffer@
    }

    pub closed spec fn wf(&self) -> bool {
        &&& self.buffer.wf()
        &&& self.remaining <= self.buffer.len
        &&& self.index == self.buffer.slot(self.buffer.len - self.remaining)
    }

    /// Yields the next value, or `None` once every value has been yielded.
    pub fn next(&mut self) -> (r: Option<&'a T>)
        requires
            old(self).wf(),
        ensures
            final(self).wf(),
            final(self).source() == old(self).source(),
            old(self)@.len() == 0 ==> r is None && final(self)@ == old(self)@,
            old(self)@.len() > 0 ==> (r matches Some(x) && *x == old(self)@[0]),
            old(self)@.len() > 0 ==> final(self)@ == old(self)@.drop_first(),
    {
        if self.remaining == 0 {
            return None;
        }
        let ghost before = *self;
        let b: &'a RingBuffer<T, N> = self.buffer;
        let item = b.data[self.index].as_ref();
        self.index = if self.index + 1 == N { 0 } else { self.index + 1 };
        self.remaining = self.remaining - 1;
        assert(self@ =~= before@.drop_first());
        item
    }
}

impl<'a, T, const N: usize> View for RingBufferIter<'a, T, N> {
    type V = Seq<T>;

    /// The values not yet yielded, oldest first.
    closed spec fn view(&self) -> Seq<T> {
        self.buffer@.subrange(self.buffer.len - self.remaining, self.buffer.len as int)
    }
}

/// A read-only cursor over the overlapping windows of width `W` of a ring
/// buffer's values.
pub struct WindowIter<'a, T, const N: usize, const W: usize> {
    buffer: &'a RingBuffer<T, N>,
    index: usize,
    remaining: usize,
}

impl<T, const N: usize> RingBuffer<T, N> {
    /// A cursor over the windows of width `W` of the values held now, each
    /// advanced by one value from the one before.
    pub fn windows<const W: usize>(&self) -> (r: WindowIter<'_, T, N, W>)
        requires
            self.wf(),
            0 < W <= self@.len(),
        ensures
            r.wf(),
            r.source() == self@,
            r@ == windows_of(self@, W as nat),
    {
        let r = WindowIter { buffer: self, index: self.tail, remaining: self.len - W + 1 };
        assert(r@ =~= windows_of(self@, W as nat));
        r
    }
}

impl<'a, T, const N: usize, const W: usize> WindowIter<'a, T, N, W> {
    /// The contents of the buffer being read.
    pub closed spec fn source(&self) -> Seq<T> {
        self.buffer@
    }

    /// How many windows were yielded before the next one.
    closed spec fn done(&self) -> int {
        self.buffer.len - W + 1 - self.remaining
    }

    pub closed spec fn wf(&self) -> bool {
        &&& self.buffer.wf()
        &&& 0 < W <= self.buffer.len
        &&& self.remaining <= self.buffer.len - W + 1
        &&& self.index == self.buffer.slot(self.done())
    }

    /// Yields the next window, oldest value first, or `None` once every window
    /// has been yielded.
    pub fn next(&mut self) -> (r: Option<Vec<&'a T>>)
        requires
            old(self).wf(),
        ensures
            final(self).wf(),
            final(self).source() == old(self).source(),
            old(self)@.len() == 0 ==> r is None && final(self)@ == old(self)@,
            old(self)@.len() > 0 ==> (r matches Some(w) && w@.map_values(|x: &T| *x) == old(self)@[0]),
            old(self)@.len() > 0 ==> final(self)@ == old(self)@.drop_first(),
    {
        if self.remaining == 0 {
            return None;
        }
        let ghost before = *self;
        let ghost start = self.done();
        let b: &'a RingBuffer<T, N> = self.buffer;
        let mut window: Vec<&'a T> = Vec::new();
        let mut idx: usize = self.index;
        let mut i: usize = 0;
        while i < W
            invariant
                b.wf(),
                b == before.buffer,
                0 <= start,
                start + W <= b.len,
                i <= W,
                idx == b.slot(start + i),
                window@.len() == i,
                forall|j: int| 0 <= j < i ==> *(#[trigger] window@[j]) == b@[start + j],
            decreases W - i,
        {
            assert(b.data@[b.slot(start + i)] is Some);
            window.push(b.data[idx].as_ref().unwrap());
            idx = if idx + 1 == N { 0 } else { idx + 1 };
            i = i + 1;
        }
        self.index = if self.index + 1 == N { 0 } else { self.index + 1 };
        self.remaining = self.remaining - 1;
        assert(window@.map_values(|x: &T| *x) =~= before@[0]);
        assert(self@ =~= before@.drop_first());
        Some(window)
    }
}

impl<'a, T, const N: usize, const W: usize> View for WindowIter<'a, T, N, W> {
    type V = Seq<Seq<T>>;

    /// The windows not yet yielded, oldest first.
    closed spec fn view(&self) -> Seq<Seq<T>> {
        windows_of(self.buffer@, W as nat).skip(self.done())
    }
}

} // verus!
