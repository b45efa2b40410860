use vstd::prelude::*;

verus! {

/// A polled producer of samples.
pub trait DataSource {
    type Sample;

    /// The next sample, or `None` when none is available.
    fn next(&mut self) -> Option<Self::Sample>;
}

} // verus!
