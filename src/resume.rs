//! Computations that are driven forward one resumption step at a time.
use vstd::prelude::*;

verus! {

/// What one resumption step reports.
#[derive(PartialEq, Eq, Structural, Debug)]
pub enum Poll<T> {
    /// The computation is done and produced this value.
    Ready(T),
    /// The computation is still suspended.
    Pending,
}

/// A computation that an external driver resumes step by step.
///
/// `Cx` is whatever the driver hands to each step (a waker context, or `()`).
/// Once a step has reported [`Poll::Ready`], the computation must not be
/// resumed again.
pub trait Resume<Cx>: Sized {
    /// The value produced on completion.
    type Output;

    /// Whether one step may take the computation from `self` to `post` while
    /// reporting `r`.
    ///
    /// An implementation that is verified defines it to meet the contract of
    /// [`Resume::resume`]; one that is not inherits this
    /// unspecified default.
    closed spec fn resumes(&self, post: &Self, r: Poll<Self::Output>) -> bool {
        arbitrary()
    }

    /// Drive the computation forward by one step.
    fn resume(&mut self, cx: &mut Cx) -> (r: Poll<Self::Output>)
        ensures
            old(self).resumes(&*final(self), r),
    ;
}

} // verus!
