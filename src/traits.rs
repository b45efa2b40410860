use vstd::prelude::*;

verus! {

/// Index `i` folded back into `0..n`, for `0 <= i < 2 * n`: one step of circular
/// advance over `n` slots.
pub open spec fn wrap(i: int, n: int) -> int {
    if i < n {
        i
    } else {
        i - n
    }
}

/// What a push does to buffered contents `s` when at most `cap` values fit:
/// with room, `v` goes to the back and the push succeeds; without room, `v` is
/// handed back and the contents stay as they were.
pub open spec fn push_spec<T>(s: Seq<T>, cap: nat, v: T) -> (Seq<T>, Result<(), T>) {
    if s.len() < cap {
        (s.push(v), Ok(()))
    } else {
        (s, Err(v))
    }
}

/// What a pop does to buffered contents `s`: the oldest value leaves and is
/// returned; from empty contents nothing comes and nothing changes.
pub open spec fn pop_spec<T>(s: Seq<T>) -> (Seq<T>, Option<T>) {
    if s.len() == 0 {
        (s, None)
    } else {
        (s.drop_first(), Some(s[0]))
    }
}

/// A bounded first-in-first-out buffer.
pub trait Buffer<T>: Sized {
    /// The values held, oldest first.
    spec fn contents(&self) -> Seq<T>;

    /// How many values the buffer can hold at once.
    spec fn limit(&self) -> nat;

    /// The buffer's internal invariant.
    spec fn well_formed(&self) -> bool;

    fn len(&self) -> (r: usize)
        requires
            self.well_formed(),
        ensures
            r == self.contents().len(),
    ;

    fn capacity(&self) -> (r: usize)
        requires
            self.well_formed(),
        ensures
            r == self.limit(),
            self.contents().len() <= self.limit(),
    ;

    /// Appends `value`, or hands it back unchanged when the buffer is full.
    fn push(&mut self, value: T) -> (r: Result<(), T>)
        requires
            old(self).well_formed(),
        ensures
            final(self).well_formed(),
            final(self).limit() == old(self).limit(),
            (final(self).contents(), r) == push_spec(old(self).contents(), old(self).limit(), value),
    ;

    /// Removes and returns the oldest value, or `None` when the buffer is empty.
    fn pop(&mut self) -> (r: Option<T>)
        requires
            old(self).well_formed(),
        ensures
            final(self).well_formed(),
            final(self).limit() == old(self).limit(),
            (final(self).contents(), r) == pop_spec(old(self).contents()),
    ;

    fn is_empty(&self) -> (r: bool)
        requires
            self.well_formed(),
        ensures
            r == (self.contents().len() == 0),
    {
        self.len() == 0
    }

    fn is_full(&self) -> (r: bool)
        requires
            self.well_formed(),
        ensures
            r == (self.contents().len() == self.limit()),
    {
        self.len() == self.capacity()
    }
}

} // verus!
