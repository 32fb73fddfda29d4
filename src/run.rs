//! Runs: a traced computation resumed step after step, and what the traces
//! promise over a whole run.
use vstd::prelude::*;

use crate::resume::{Poll, Resume};
use crate::signal::{Instrument, Signal};
use crate::trace::{
    step_events, step_marks, task_and_step_events, task_marks, Event, TracePollFuture,
    TraceTaskAndPollFuture, TraceTaskFuture,
};

verus! {

/// `s` written out `n` times in a row.
pub open spec fn repeat<A>(s: Seq<A>, n: nat) -> Seq<A>
    decreases n,
{
    if n == 0 {
        Seq::empty()
    } else {
        repeat(s, (n - 1) as nat) + s
    }
}

/// `states` are the successive states of a computation over
/// `results.len()` resumption steps, step `i` taking `states[i]` to
/// `states[i + 1]` and reporting `results[i]`.
pub open spec fn is_run<Cx, T: Resume<Cx>>(states: Seq<T>, results: Seq<Poll<T::Output>>) -> bool {
    &&& states.len() == results.len() + 1
    &&& forall|i: int|
        0 <= i < results.len() ==> #[trigger] <T as Resume<Cx>>::resumes(
            &states[i],
            &states[i + 1],
            results[i],
        )
}

/// Every step of the run reports that the computation is still suspended.
pub open spec fn all_pending<T>(results: Seq<Poll<T>>) -> bool {
    forall|i: int| 0 <= i < results.len() ==> #[trigger] results[i] is Pending
}

/// The run takes at least one step; the last one completes the computation
/// and every earlier one leaves it suspended.
pub open spec fn completes_on_last<T>(results: Seq<Poll<T>>) -> bool {
    &&& results.len() >= 1
    &&& results.last() is Ready
    &&& all_pending(results.drop_last())
}

/// Over any run of `N` steps of a step-level trace, the instrument is
/// entered and exited once per step, each exit right after that step's
/// resumption, whatever the step reported.
pub proof fn lemma_poll_trace_marks_each_step<'a, Cx, F: Resume<Cx>, I: Instrument>(
    states: Seq<TracePollFuture<'a, F, I>>,
    results: Seq<Poll<F::Output>>,
)
    requires
        is_run::<Cx, _>(states, results),
    ensures
        states.last().instrument().history() == states[0].instrument().history() + repeat(
            step_marks(),
            results.len(),
        ),
        states.last().events() == states[0].events() + repeat(step_events(), results.len()),
    decreases results.len(),
{
    if results.len() > 0 {
        let n = results.len() - 1;
        lemma_poll_trace_marks_each_step::<Cx, F, I>(states.take(n + 1), results.take(n));
        assert(<TracePollFuture<'a, F, I> as Resume<Cx>>::resumes(&states[n], &states[n + 1], results[n]));
        assert(states.take(n + 1).last() == states[n]);
        assert(states.last() == states[n + 1]);
        assert(states.last().instrument().history() =~= states[0].instrument().history()
            + repeat(step_marks(), results.len()));
        assert(states.last().events() =~= states[0].events() + repeat(step_events(), results.len()));
    }
}

/// The task-level marks after `k` steps that all left the computation
/// suspended, starting from a trace that had not been entered.
pub open spec fn entered_marks(k: nat) -> Seq<Signal> {
    if k > 0 { seq![Signal::Enter] } else { seq![] }
}

proof fn lemma_task_trace_pending_prefix<'a, Cx, F: Resume<Cx>, I: Instrument>(
    states: Seq<TraceTaskFuture<'a, F, I>>,
    results: Seq<Poll<F::Output>>,
    k: nat,
)
    requires
        is_run::<Cx, _>(states, results),
        !states[0].entered(),
        k <= results.len(),
        all_pending(results.take(k as int)),
    ensures
        states[k as int].entered() == (k > 0),
        states[k as int].instrument().history() == states[0].instrument().history()
            + entered_marks(k),
        states[k as int].events() == states[0].events() + (if k > 0 {
            seq![Event::TaskEnter]
        } else {
            seq![]
        }) + repeat(seq![Event::Resumed], k),
    decreases k,
{
    if k > 0 {
        let j = (k - 1) as int;
        assert(results.take(j).len() == j);
        assert forall|i: int| 0 <= i < j implies #[trigger] results.take(j)[i] is Pending by {
            assert(results.take(j)[i] == results.take(k as int)[i]);
        }
        lemma_task_trace_pending_prefix::<Cx, F, I>(states, results, j as nat);
        assert(<TraceTaskFuture<'a, F, I> as Resume<Cx>>::resumes(&states[j], &states[j + 1], results[j]));
        assert(results.take(k as int)[j] is Pending);
        assert(task_marks(j > 0, false) =~= (if j > 0 { seq![] } else { seq![Signal::Enter] }));
        assert(states[k as int].instrument().history() =~= states[0].instrument().history()
            + entered_marks(k));
        assert(states[k as int].events() =~= states[0].events() + seq![Event::TaskEnter] + repeat(
            seq![Event::Resumed],
            k,
        ));
    }
}

/// Over a run of a task-level trace that starts before its first step and
/// ends with the step that completes the computation, the instrument is
/// entered exactly once, before the first resumption, and exited exactly
/// once, after the completing step's resumption.
pub proof fn lemma_task_trace_enters_once_exits_once<'a, Cx, F: Resume<Cx>, I: Instrument>(
    states: Seq<TraceTaskFuture<'a, F, I>>,
    results: Seq<Poll<F::Output>>,
)
    requires
        is_run::<Cx, _>(states, results),
        !states[0].entered(),
        completes_on_last(results),
    ensures
        states.last().instrument().history() == states[0].instrument().history() + seq![
            Signal::Enter,
            Signal::Exit,
        ],
        states.last().events() == states[0].events() + seq![Event::TaskEnter] + repeat(
            seq![Event::Resumed],
            results.len(),
        ) + seq![Event::TaskExit],
{
    let n = results.len();
    let j = n - 1;
    assert(results.take(j) =~= results.drop_last());
    lemma_task_trace_pending_prefix::<Cx, F, I>(states, results, j as nat);
    assert(<TraceTaskFuture<'a, F, I> as Resume<Cx>>::resumes(&states[j], &states[j + 1], results[j]));
    assert(states.last() == states[j + 1]);
    assert(states.last().instrument().history() =~= states[0].instrument().history() + seq![
        Signal::Enter,
        Signal::Exit,
    ]);
    assert(states.last().events() =~= states[0].events() + seq![Event::TaskEnter] + repeat(
        seq![Event::Resumed],
        n,
    ) + seq![Event::TaskExit]);
}

/// A task-level trace that is resumed one or more times and is abandoned
/// while its computation is still suspended has been entered exactly once
/// and never exited.
pub proof fn lemma_task_trace_abandoned<'a, Cx, F: Resume<Cx>, I: Instrument>(
    states: Seq<TraceTaskFuture<'a, F, I>>,
    results: Seq<Poll<F::Output>>,
)
    requires
        is_run::<Cx, _>(states, results),
        !states[0].entered(),
        results.len() >= 1,
        all_pending(results),
    ensures
        states.last().instrument().history() == states[0].instrument().history().push(
            Signal::Enter,
        ),
        states.last().events() == states[0].events() + seq![Event::TaskEnter] + repeat(
            seq![Event::Resumed],
            results.len(),
        ),
{
    assert(results.take(results.len() as int) =~= results);
    lemma_task_trace_pending_prefix::<Cx, F, I>(states, results, results.len());
    assert(states.last() == states[results.len() as int]);
    assert(states.last().instrument().history() =~= states[0].instrument().history().push(
        Signal::Enter,
    ));
}

proof fn lemma_task_and_poll_trace_pending_prefix<
    'a,
    Cx,
    F: Resume<Cx>,
    T: Instrument,
    P: Instrument,
>(states: Seq<TraceTaskAndPollFuture<'a, F, T, P>>, results: Seq<Poll<F::Output>>, k: nat)
    requires
        is_run::<Cx, _>(states, results),
        !states[0].entered(),
        k <= results.len(),
        all_pending(results.take(k as int)),
    ensures
        states[k as int].entered() == (k > 0),
        states[k as int].task_instrument().history() == states[0].task_instrument().history()
            + entered_marks(k),
        states[k as int].poll_instrument().history() == states[0].poll_instrument().history()
            + repeat(step_marks(), k),
        states[k as int].events() == states[0].events() + (if k > 0 {
            seq![Event::TaskEnter]
        } else {
            seq![]
        }) + repeat(step_events(), k),
    decreases k,
{
    if k > 0 {
        let j = (k - 1) as int;
        assert(results.take(j).len() == j);
        assert forall|i: int| 0 <= i < j implies #[trigger] results.take(j)[i] is Pending by {
            assert(results.take(j)[i] == results.take(k as int)[i]);
        }
        lemma_task_and_poll_trace_pending_prefix::<Cx, F, T, P>(states, results, j as nat);
        assert(<TraceTaskAndPollFuture<'a, F, T, P> as Resume<Cx>>::resumes(
            &states[j],
            &states[j + 1],
            results[j],
        ));
        assert(results.take(k as int)[j] is Pending);
        assert(task_marks(j > 0, false) =~= (if j > 0 { seq![] } else { seq![Signal::Enter] }));
        assert(task_and_step_events(j > 0, false) =~= (if j > 0 {
            seq![]
        } else {
            seq![Event::TaskEnter]
        }) + step_events());
        assert(states[k as int].task_instrument().history() =~= states[0].task_instrument().history()
            + entered_marks(k));
        assert(states[k as int].poll_instrument().history() =~= states[0].poll_instrument().history()
            + repeat(step_marks(), k));
        assert(states[k as int].events() =~= states[0].events() + seq![Event::TaskEnter] + repeat(
            step_events(),
            k,
        ));
    }
}

/// Over a run of a trace at both levels that starts before its first step
/// and ends with the step that completes the computation: the task-level
/// instrument is entered once, before the first step-level entry, and exited
/// once, after the last step-level exit; the step-level instrument is
/// entered and exited once per step.
pub proof fn lemma_task_and_poll_trace_nests_spans<
    'a,
    Cx,
    F: Resume<Cx>,
    T: Instrument,
    P: Instrument,
>(states: Seq<TraceTaskAndPollFuture<'a, F, T, P>>, results: Seq<Poll<F::Output>>)
    requires
        is_run::<Cx, _>(states, results),
        !states[0].entered(),
        completes_on_last(results),
    ensures
        states.last().task_instrument().history() == states[0].task_instrument().history() + seq![
            Signal::Enter,
            Signal::Exit,
        ],
        states.last().poll_instrument().history() == states[0].poll_instrument().history()
            + repeat(step_marks(), results.len()),
        states.last().events() == states[0].events() + seq![Event::TaskEnter] + repeat(
            step_events(),
            results.len(),
        ) + seq![Event::TaskExit],
{
    let n = results.len();
    let j = n - 1;
    assert(results.take(j) =~= results.drop_last());
    lemma_task_and_poll_trace_pending_prefix::<Cx, F, T, P>(states, results, j as nat);
    assert(<TraceTaskAndPollFuture<'a, F, T, P> as Resume<Cx>>::resumes(
        &states[j],
        &states[j + 1],
        results[j],
    ));
    assert(states.last() == states[j + 1]);
    assert(states.last().task_instrument().history() =~= states[0].task_instrument().history()
        + seq![Signal::Enter, Signal::Exit]);
    assert(states.last().poll_instrument().history() =~= states[0].poll_instrument().history()
        + repeat(step_marks(), n));
    assert(states.last().events() =~= states[0].events() + seq![Event::TaskEnter] + repeat(
        step_events(),
        n,
    ) + seq![Event::TaskExit]);
}

/// A task-level trace is transparent: over any run of it, the wrapped
/// computation goes through a run of its own with the same results, one
/// resumption of it per step.
pub proof fn lemma_task_trace_transparent<'a, Cx, F: Resume<Cx>, I: Instrument>(
    states: Seq<TraceTaskFuture<'a, F, I>>,
    results: Seq<Poll<F::Output>>,
)
    requires
        is_run::<Cx, _>(states, results),
    ensures
        is_run::<Cx, _>(states.map_values(|s: TraceTaskFuture<'a, F, I>| s.inner()), results),
{
    let inner = states.map_values(|s: TraceTaskFuture<'a, F, I>| s.inner());
    assert forall|i: int| 0 <= i < results.len() implies #[trigger] <F as Resume<Cx>>::resumes(
        &inner[i],
        &inner[i + 1],
        results[i],
    ) by {
        assert(<TraceTaskFuture<'a, F, I> as Resume<Cx>>::resumes(
            &states[i],
            &states[i + 1],
            results[i],
        ));
    }
}

/// A step-level trace is transparent: over any run of it, the wrapped
/// computation goes through a run of its own with the same results, one
/// resumption of it per step.
pub proof fn lemma_poll_trace_transparent<'a, Cx, F: Resume<Cx>, I: Instrument>(
    states: Seq<TracePollFuture<'a, F, I>>,
    results: Seq<Poll<F::Output>>,
)
    requires
        is_run::<Cx, _>(states, results),
    ensures
        is_run::<Cx, _>(states.map_values(|s: TracePollFuture<'a, F, I>| s.inner()), results),
{
    let inner = states.map_values(|s: TracePollFuture<'a, F, I>| s.inner());
    assert forall|i: int| 0 <= i < results.len() implies #[trigger] <F as Resume<Cx>>::resumes(
        &inner[i],
        &inner[i + 1],
        results[i],
    ) by {
        assert(<TracePollFuture<'a, F, I> as Resume<Cx>>::resumes(
            &states[i],
            &states[i + 1],
            results[i],
        ));
    }
}

/// A trace at both levels is transparent: over any run of it, the wrapped
/// computation goes through a run of its own with the same results, one
/// resumption of it per step.
pub proof fn lemma_task_and_poll_trace_transparent<
    'a,
    Cx,
    F: Resume<Cx>,
    T: Instrument,
    P: Instrument,
>(states: Seq<TraceTaskAndPollFuture<'a, F, T, P>>, results: Seq<Poll<F::Output>>)
    requires
        is_run::<Cx, _>(states, results),
    ensures
        is_run::<Cx, _>(
            states.map_values(|s: TraceTaskAndPollFuture<'a, F, T, P>| s.inner()),
            results,
        ),
{
    let inner = states.map_values(|s: TraceTaskAndPollFuture<'a, F, T, P>| s.inner());
    assert forall|i: int| 0 <= i < results.len() implies #[trigger] <F as Resume<Cx>>::resumes(
        &inner[i],
        &inner[i + 1],
        results[i],
    ) by {
        assert(<TraceTaskAndPollFuture<'a, F, T, P> as Resume<Cx>>::resumes(
            &states[i],
            &states[i + 1],
            results[i],
        ));
    }
}

} // verus!
