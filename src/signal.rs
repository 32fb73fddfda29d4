//! The capability through which a tracer marks span boundaries.
use vstd::prelude::*;

verus! {

/// One mark made on an [`Instrument`].
#[derive(PartialEq, Eq, Structural, Clone, Copy, Debug)]
pub enum Signal {
    /// A span was entered.
    Enter,
    /// A span was exited.
    Exit,
}

/// Signal when a span is entered or exited.
///
/// Both operations are infallible: an implementation absorbs whatever error
/// its underlying resource reports. Its history is the sequence of marks made
/// on it so far, which is all that the tracers promise anything about.
pub trait Instrument {
    /// The marks made on this instrument so far, oldest first.
    ///
    /// An implementation that is verified defines it to meet the contracts
    /// below; one that is not inherits this
    /// unspecified default.
    closed spec fn history(&self) -> Seq<Signal> {
        arbitrary()
    }

    /// Called when the span is entered.
    fn on_enter(&mut self)
        ensures
            final(self).history() == old(self).history().push(Signal::Enter),
    ;

    /// Called when the span is exited.
    fn on_exit(&mut self)
        ensures
            final(self).history() == old(self).history().push(Signal::Exit),
    ;
}

} // verus!
