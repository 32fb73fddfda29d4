//! Wrappers that mark the spans of a resumable computation.
use vstd::prelude::*;

use crate::resume::{Poll, Resume};
use crate::signal::{Instrument, Signal};

verus! {

/// One thing that happens during a traced step, in the order it happens.
///
/// Each trace keeps a ghost record of these, which lets its contracts state
/// how the marks on two instruments and the resumptions interleave.
#[derive(PartialEq, Eq, Structural, Clone, Copy, Debug)]
pub enum Event {
    /// The task-level instrument was entered.
    TaskEnter,
    /// The step-level instrument was entered.
    StepEnter,
    /// The wrapped computation was resumed once.
    Resumed,
    /// The step-level instrument was exited.
    StepExit,
    /// The task-level instrument was exited.
    TaskExit,
}

/// The marks that one step of a task-level trace makes, given whether the
/// task was entered before the step and whether the step completed it.
pub open spec fn task_marks(entered: bool, done: bool) -> Seq<Signal> {
    (if entered { seq![] } else { seq![Signal::Enter] })
        + (if done { seq![Signal::Exit] } else { seq![] })
}

/// The marks that one step of a step-level trace makes.
pub open spec fn step_marks() -> Seq<Signal> {
    seq![Signal::Enter, Signal::Exit]
}

/// The events of one step of a task-level trace.
pub open spec fn task_events(entered: bool, done: bool) -> Seq<Event> {
    (if entered { seq![] } else { seq![Event::TaskEnter] })
        + seq![Event::Resumed]
        + (if done { seq![Event::TaskExit] } else { seq![] })
}

/// The events of one step of a step-level trace.
pub open spec fn step_events() -> Seq<Event> {
    seq![Event::StepEnter, Event::Resumed, Event::StepExit]
}

/// The events of one step of a trace at both levels.
pub open spec fn task_and_step_events(entered: bool, done: bool) -> Seq<Event> {
    (if entered { seq![] } else { seq![Event::TaskEnter] })
        + step_events()
        + (if done { seq![Event::TaskExit] } else { seq![] })
}

/// Tracing methods on every resumable computation.
///
/// Each method takes the instruments that mark the spans and returns the
/// wrapped computation, which the driver then resumes in place of `self`.
pub trait TraceFuture<Cx>: Resume<Cx> {
    /// Trace the task: the instrument is entered when the computation is
    /// first resumed and exited when it completes.
    fn trace_task<I: Instrument>(self, instrument: &mut I) -> (r: TraceTaskFuture<'_, Self, I>)
        ensures
            r.inner() == self,
            r.instrument() == *old(instrument),
            !r.entered(),
            r.events() == Seq::<Event>::empty(),
    {
        TraceTaskFuture::new(self, instrument)
    }

    /// Trace each step: the instrument is entered before every resumption
    /// and exited right after it, whatever it reports.
    fn trace_poll<I: Instrument>(self, instrument: &mut I) -> (r: TracePollFuture<'_, Self, I>)
        ensures
            r.inner() == self,
            r.instrument() == *old(instrument),
            r.events() == Seq::<Event>::empty(),
    {
        TracePollFuture::new(self, instrument)
    }

    /// Trace the task with `task_instrument`, as [`TraceFuture::trace_task`]
    /// does, and each step with `poll_instrument`, as
    /// [`TraceFuture::trace_poll`] does.
    fn trace_task_and_poll<'a, I1: Instrument, I2: Instrument>(
        self,
        task_instrument: &'a mut I1,
        poll_instrument: &'a mut I2,
    ) -> (r: TraceTaskAndPollFuture<'a, Self, I1, I2>)
        ensures
            r.inner() == self,
            r.task_instrument() == *old(task_instrument),
            r.poll_instrument() == *old(poll_instrument),
            !r.entered(),
            r.events() == Seq::<Event>::empty(),
    {
        TraceTaskAndPollFuture::new(self, task_instrument, poll_instrument)
    }
}

impl<Cx, F: Resume<Cx>> TraceFuture<Cx> for F {}

/// A computation traced at task level: its instrument is entered on the
/// first step and exited on the step that completes it.
///
/// A trace dropped while its computation is still suspended makes no further
/// mark, so an entered task span is then never exited.
pub struct TraceTaskFuture<'a, F, I> {
    fut: F,
    instrument: &'a mut I,
    polled_once: bool,
    events: Ghost<Seq<Event>>,
}

impl<'a, F, I> TraceTaskFuture<'a, F, I> {
    /// The wrapped computation.
    pub closed spec fn inner(&self) -> F {
        self.fut
    }

    /// The instrument, as the trace currently holds it.
    pub closed spec fn instrument(&self) -> I {
        *self.instrument
    }

    /// Whether the task span has been entered.
    pub closed spec fn entered(&self) -> bool {
        self.polled_once
    }

    /// Everything that happened in the steps so far, in order.
    pub closed spec fn events(&self) -> Seq<Event> {
        self.events@
    }

    /// Wrap `fut` so that `instrument` marks its whole task.
    pub fn new(fut: F, instrument: &'a mut I) -> (r: Self)
        ensures
            r.inner() == fut,
            r.instrument() == *old(instrument),
            !r.entered(),
            r.events() == Seq::<Event>::empty(),
    {
        TraceTaskFuture { fut, instrument, polled_once: false, events: Ghost(Seq::empty()) }
    }
}

impl<'a, Cx, F: Resume<Cx>, I: Instrument> Resume<Cx> for TraceTaskFuture<'a, F, I> {
    type Output = F::Output;

    open spec fn resumes(&self, post: &Self, r: Poll<F::Output>) -> bool {
        &&& self.inner().resumes(&post.inner(), r)
        &&& post.entered()
        &&& post.instrument().history() == self.instrument().history() + task_marks(
            self.entered(),
            r is Ready,
        )
        &&& post.events() == self.events() + task_events(self.entered(), r is Ready)
    }

    fn resume(&mut self, cx: &mut Cx) -> (r: Poll<F::Output>) {
        let ghost marks0 = self.instrument.history();
        let ghost events0 = self.events@;
        let ghost entered0 = self.polled_once;
        if !self.polled_once {
            self.instrument.on_enter();
            proof { self.events@ = self.events@.push(Event::TaskEnter); }
        }
        self.polled_once = true;

        let r = self.fut.resume(cx);
        proof { self.events@ = self.events@.push(Event::Resumed); }
        if let Poll::Ready(_) = &r {
            self.instrument.on_exit();
            proof { self.events@ = self.events@.push(Event::TaskExit); }
        }
        assert(self.instrument.history() =~= marks0 + task_marks(entered0, r is Ready));
        assert(self.events@ =~= events0 + task_events(entered0, r is Ready));
        r
    }
}

/// A computation traced at step level: its instrument is entered before and
/// exited after every step, whatever the step reports.
pub struct TracePollFuture<'a, F, I> {
    fut: F,
    instrument: &'a mut I,
    events: Ghost<Seq<Event>>,
}

impl<'a, F, I> TracePollFuture<'a, F, I> {
    /// The wrapped computation.
    pub closed spec fn inner(&self) -> F {
        self.fut
    }

    /// The instrument, as the trace currently holds it.
    pub closed spec fn instrument(&self) -> I {
        *self.instrument
    }

    /// Everything that happened in the steps so far, in order.
    pub closed spec fn events(&self) -> Seq<Event> {
        self.events@
    }

    /// Wrap `fut` so that `instrument` marks each of its steps.
    pub fn new(fut: F, instrument: &'a mut I) -> (r: Self)
        ensures
            r.inner() == fut,
            r.instrument() == *old(instrument),
            r.events() == Seq::<Event>::empty(),
    {
        TracePollFuture { fut, instrument, events: Ghost(Seq::empty()) }
    }
}

impl<'a, Cx, F: Resume<Cx>, I: Instrument> Resume<Cx> for TracePollFuture<'a, F, I> {
    type Output = F::Output;

    open spec fn resumes(&self, post: &Self, r: Poll<F::Output>) -> bool {
        &&& self.inner().resumes(&post.inner(), r)
        &&& post.instrument().history() == self.instrument().history() + step_marks()
        &&& post.events() == self.events() + step_events()
    }

    fn resume(&mut self, cx: &mut Cx) -> (r: Poll<F::Output>) {
        let ghost marks0 = self.instrument.history();
        let ghost events0 = self.events@;
        self.instrument.on_enter();
        proof { self.events@ = self.events@.push(Event::StepEnter); }
        let r = self.fut.resume(cx);
        proof { self.events@ = self.events@.push(Event::Resumed); }
        self.instrument.on_exit();
        proof { self.events@ = self.events@.push(Event::StepExit); }
        assert(self.instrument.history() =~= marks0 + step_marks());
        assert(self.events@ =~= events0 + step_events());
        r
    }
}

/// A computation traced at both levels: one instrument marks the whole task,
/// as [`TraceTaskFuture`] does, and the other marks each step, as
/// [`TracePollFuture`] does. The task span is entered before the first step
/// span and exited after the last one.
///
/// A trace dropped while its computation is still suspended makes no further
/// mark, so an entered task span is then never exited.
pub struct TraceTaskAndPollFuture<'a, F, T, P> {
    fut: F,
    task_instrument: &'a mut T,
    poll_instrument: &'a mut P,
    polled_once: bool,
    events: Ghost<Seq<Event>>,
}

impl<'a, F, T, P> TraceTaskAndPollFuture<'a, F, T, P> {
    /// The wrapped computation.
    pub closed spec fn inner(&self) -> F {
        self.fut
    }

    /// The task-level instrument, as the trace currently holds it.
    pub closed spec fn task_instrument(&self) -> T {
        *self.task_instrument
    }

    /// The step-level instrument, as the trace currently holds it.
    pub closed spec fn poll_instrument(&self) -> P {
        *self.poll_instrument
    }

    /// Whether the task span has been entered.
    pub closed spec fn entered(&self) -> bool {
        self.polled_once
    }

    /// Everything that happened in the steps so far, in order.
    pub closed spec fn events(&self) -> Seq<Event> {
        self.events@
    }

    /// Wrap `fut` so that `task_instrument` marks its whole task and
    /// `poll_instrument` each of its steps.
    pub fn new(fut: F, task_instrument: &'a mut T, poll_instrument: &'a mut P) -> (r: Self)
        ensures
            r.inner() == fut,
            r.task_instrument() == *old(task_instrument),
            r.poll_instrument() == *old(poll_instrument),
            !r.entered(),
            r.events() == Seq::<Event>::empty(),
    {
        TraceTaskAndPollFuture {
            fut,
            task_instrument,
            poll_instrument,
            polled_once: false,
            events: Ghost(Seq::empty()),
        }
    }
}

impl<'a, Cx, F: Resume<Cx>, T: Instrument, P: Instrument> Resume<Cx> for TraceTaskAndPollFuture<
    'a,
    F,
    T,
    P,
> {
    type Output = F::Output;

    open spec fn resumes(&self, post: &Self, r: Poll<F::Output>) -> bool {
        &&& self.inner().resumes(&post.inner(), r)
        &&& post.entered()
        &&& post.task_instrument().history() == self.task_instrument().history() + task_marks(
            self.entered(),
            r is Ready,
        )
        &&& post.poll_instrument().history() == self.poll_instrument().history() + step_marks()
        &&& post.events() == self.events() + task_and_step_events(self.entered(), r is Ready)
    }

    fn resume(&mut self, cx: &mut Cx) -> (r: Poll<F::Output>) {
        let ghost task0 = self.task_instrument.history();
        let ghost poll0 = self.poll_instrument.history();
        let ghost events0 = self.events@;
        let ghost entered0 = self.polled_once;
        if !self.polled_once {
            self.task_instrument.on_enter();
            proof { self.events@ = self.events@.push(Event::TaskEnter); }
        }
        self.polled_once = true;

        self.poll_instrument.on_enter();
        proof { self.events@ = self.events@.push(Event::StepEnter); }
        let r = self.fut.resume(cx);
        proof { self.events@ = self.events@.push(Event::Resumed); }
        self.poll_instrument.on_exit();
        proof { self.events@ = self.events@.push(Event::StepExit); }

        if let Poll::Ready(_) = &r {
            self.task_instrument.on_exit();
            proof { self.events@ = self.events@.push(Event::TaskExit); }
        }
        assert(self.task_instrument.history() =~= task0 + task_marks(entered0, r is Ready));
        assert(self.poll_instrument.history() =~= poll0 + step_marks());
        assert(self.events@ =~= events0 + task_and_step_events(entered0, r is Ready));
        r
    }
}

} // verus!
