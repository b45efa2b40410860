//! Properties of the buffers that span several calls, stated over the models
//! that `push`, `pop` and `windows` are specified by.
use crate::buffer::windows_of;
use crate::traits::{pop_spec, push_spec};
use vstd::prelude::*;

verus! {

/// One call on a buffer.
pub enum Op<T> {
    Push(T),
    Pop,
}

/// What a run of calls leaves behind.
pub struct Trace<T> {
    /// The values still held, oldest first.
    pub contents: Seq<T>,
    /// The values that pops returned, in the order they came out.
    pub taken: Seq<T>,
    /// The values whose push succeeded, in the order they went in.
    pub accepted: Seq<T>,
}

/// The trace of `ops`, run in order on contents `s` with room for `cap` values.
pub open spec fn run<T>(s: Seq<T>, cap: nat, ops: Seq<Op<T>>) -> Trace<T>
    decreases ops.len(),
{
    if ops.len() == 0 {
        Trace { contents: s, taken: Seq::empty(), accepted: Seq::empty() }
    } else {
        let t = run(s, cap, ops.drop_last());
        match ops.last() {
            Op::Push(v) => {
                let (c, r) = push_spec(t.contents, cap, v);
                Trace {
                    contents: c,
                    taken: t.taken,
                    accepted: if r is Ok { t.accepted.push(v) } else { t.accepted },
                }
            },
            Op::Pop => {
                let (c, r) = pop_spec(t.contents);
                Trace {
                    contents: c,
                    taken: if r is Some { t.taken.push(r->0) } else { t.taken },
                    accepted: t.accepted,
                }
            },
        }
    }
}

/// The contents after pushing each of `vs` in turn onto `s`.
pub open spec fn push_all<T>(s: Seq<T>, cap: nat, vs: Seq<T>) -> Seq<T>
    decreases vs.len(),
{
    if vs.len() == 0 {
        s
    } else {
        push_spec(push_all(s, cap, vs.drop_last()), cap, vs.last()).0
    }
}

/// First in, first out: over any run of pushes and pops, interleaved in any
/// way and wrapping round the slots any number of times, the values taken out
/// followed by those still held are exactly the values held at the start
/// followed by those whose push succeeded. So every accepted value comes out
/// once, and in the order it went in.
pub proof fn lemma_fifo<T>(s: Seq<T>, cap: nat, ops: Seq<Op<T>>)
    ensures
        run(s, cap, ops).taken + run(s, cap, ops).contents == s + run(s, cap, ops).accepted,
    decreases ops.len(),
{
    if ops.len() > 0 {
        let t = run(s, cap, ops.drop_last());
        lemma_fifo(s, cap, ops.drop_last());
        match ops.last() {
            Op::Push(v) => {
                if t.contents.len() < cap {
                    assert(t.taken + t.contents.push(v) =~= (t.taken + t.contents).push(v));
                    assert(s + t.accepted.push(v) =~= (s + t.accepted).push(v));
                }
            },
            Op::Pop => {
                if t.contents.len() > 0 {
                    assert(t.taken.push(t.contents[0]) + t.contents.drop_first() =~= t.taken
                        + t.contents);
                }
            },
        }
    }
}

/// A buffer never holds more than its room: starting within `cap` values, no
/// run of pushes and pops takes the contents past `cap`.
pub proof fn lemma_bounded<T>(s: Seq<T>, cap: nat, ops: Seq<Op<T>>)
    requires
        s.len() <= cap,
    ensures
        run(s, cap, ops).contents.len() <= cap,
    decreases ops.len(),
{
    if ops.len() > 0 {
        lemma_bounded(s, cap, ops.drop_last());
    }
}

/// Pushing values onto an empty buffer while there is room keeps them all,
/// in order.
pub proof fn lemma_push_all_fits<T>(cap: nat, vs: Seq<T>)
    requires
        vs.len() <= cap,
    ensures
        push_all(Seq::empty(), cap, vs) == vs,
    decreases vs.len(),
{
    if vs.len() > 0 {
        lemma_push_all_fits(cap, vs.drop_last());
        assert(vs.drop_last().push(vs.last()) =~= vs);
    }
}

/// Once `cap` values have been pushed onto an empty buffer, one more push
/// fails, hands its value back unchanged and leaves the contents as they were.
pub proof fn lemma_push_past_capacity<T>(cap: nat, vs: Seq<T>, v: T)
    requires
        vs.len() == cap,
    ensures
        push_all(Seq::empty(), cap, vs) == vs,
        push_spec(push_all(Seq::empty(), cap, vs), cap, v) == (vs, Err::<(), T>(v)),
{
    lemma_push_all_fits(cap, vs);
}

/// The windows of width `w` over `s`: there are `s.len() - w + 1` of them; a
/// window as wide as `s` is `s` itself, alone; windows of width one are the
/// values of `s`, one by one, in order.
pub proof fn lemma_windows<T>(s: Seq<T>, w: nat)
    requires
        0 < w <= s.len(),
    ensures
        windows_of(s, w).len() == s.len() - w + 1,
        forall|i: int| 0 <= i < s.len() - w + 1 ==> #[trigger] windows_of(s, w)[i] == s.subrange(i, i + w),
        w == s.len() ==> windows_of(s, w) == seq![s],
        w == 1 ==> windows_of(s, w) == s.map_values(|x: T| seq![x]),
{
    if w == s.len() {
        assert(s.subrange(0, w as int) =~= s);
        assert(windows_of(s, w) =~= seq![s]);
    }
    if w == 1 {
        assert forall|i: int| 0 <= i < s.len() implies #[trigger] windows_of(s, w)[i] == seq![s[i]] by {
            assert(s.subrange(i, i + 1) =~= seq![s[i]]);
        }
        assert(windows_of(s, w) =~= s.map_values(|x: T| seq![x]));
    }
}

} // verus!
