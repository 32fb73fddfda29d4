//! Tracing of resumable computations for embedded targets.
//!
//! A computation that is driven forward one resumption step at a time can be
//! wrapped so that an [`Instrument`] marks when the whole task runs, when each
//! step runs, or both. The wrappers forward every step unchanged and add no
//! allocation and no suspension points of their own.
pub mod resume;
pub mod run;
pub mod signal;
pub mod trace;

pub use resume::{Poll, Resume};
pub use signal::{Instrument, Signal};
pub use trace::{Event, TraceFuture, TracePollFuture, TraceTaskAndPollFuture, TraceTaskFuture};
