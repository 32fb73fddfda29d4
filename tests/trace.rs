use std::cell::RefCell;
use std::rc::Rc;

use embedded_trace::{
    Instrument, Poll, Resume, TraceFuture, TracePollFuture, TraceTaskAndPollFuture,
    TraceTaskFuture,
};

type Log = Rc<RefCell<Vec<String>>>;

fn new_log() -> Log {
    Rc::new(RefCell::new(Vec::new()))
}

fn count(log: &Log, entry: &str) -> usize {
    log.borrow().iter().filter(|e| e.as_str() == entry).count()
}

fn entries(log: &Log) -> Vec<String> {
    log.borrow().clone()
}

/// Writes "<name>+" on entry and "<name>-" on exit.
struct Recorder {
    name: &'static str,
    log: Log,
}

impl Instrument for Recorder {
    fn on_enter(&mut self) {
        self.log.borrow_mut().push(format!("{}+", self.name));
    }

    fn on_exit(&mut self) {
        self.log.borrow_mut().push(format!("{}-", self.name));
    }
}

/// Reports "still suspended" until its `steps`-th resumption, which yields
/// `value`; records every resumption as "step".
struct Countdown {
    steps: u32,
    taken: u32,
    value: u64,
    log: Log,
}

impl Countdown {
    fn new(steps: u32, value: u64, log: &Log) -> Countdown {
        Countdown { steps, taken: 0, value, log: log.clone() }
    }
}

impl Resume<()> for Countdown {
    type Output = u64;

    fn resume(&mut self, _cx: &mut ()) -> Poll<u64> {
        self.taken += 1;
        self.log.borrow_mut().push("step".to_string());
        if self.taken >= self.steps {
            Poll::Ready(self.value)
        } else {
            Poll::Pending
        }
    }
}

fn strs(v: &[&str]) -> Vec<String> {
    v.iter().map(|s| s.to_string()).collect()
}

#[test]
fn poll_trace_marks_each_step() {
    let log = new_log();
    let mut inst = Recorder { name: "s", log: log.clone() };
    let mut traced = Countdown::new(4, 9, &log).trace_poll(&mut inst);
    for step in 1..=4usize {
        let r = traced.resume(&mut ());
        assert_eq!(count(&log, "s+"), step);
        assert_eq!(count(&log, "s-"), step);
        assert_eq!(log.borrow().last().unwrap(), "s-");
        if step < 4 {
            assert_eq!(r, Poll::Pending);
        } else {
            assert_eq!(r, Poll::Ready(9));
        }
    }
    assert_eq!(
        entries(&log),
        strs(&["s+", "step", "s-", "s+", "step", "s-", "s+", "step", "s-", "s+", "step", "s-"])
    );
}

#[test]
fn task_trace_enters_once_exits_once() {
    let log = new_log();
    let mut inst = Recorder { name: "t", log: log.clone() };
    let mut traced = Countdown::new(3, 5, &log).trace_task(&mut inst);
    assert_eq!(traced.resume(&mut ()), Poll::Pending);
    assert_eq!(entries(&log), strs(&["t+", "step"]));
    assert_eq!(traced.resume(&mut ()), Poll::Pending);
    assert_eq!(entries(&log), strs(&["t+", "step", "step"]));
    assert_eq!(traced.resume(&mut ()), Poll::Ready(5));
    assert_eq!(entries(&log), strs(&["t+", "step", "step", "step", "t-"]));
}

#[test]
fn task_and_poll_trace_nests_spans() {
    let log = new_log();
    let mut task = Recorder { name: "t", log: log.clone() };
    let mut poll = Recorder { name: "s", log: log.clone() };
    let mut traced = Countdown::new(2, 1, &log).trace_task_and_poll(&mut task, &mut poll);
    assert_eq!(traced.resume(&mut ()), Poll::Pending);
    assert_eq!(traced.resume(&mut ()), Poll::Ready(1));
    assert_eq!(
        entries(&log),
        strs(&["t+", "s+", "step", "s-", "s+", "step", "s-", "t-"])
    );
}

#[test]
fn task_and_poll_counts_per_step() {
    let log = new_log();
    let mut task = Recorder { name: "t", log: log.clone() };
    let mut poll = Recorder { name: "s", log: log.clone() };
    let mut traced = Countdown::new(3, 77, &log).trace_task_and_poll(&mut task, &mut poll);
    let counts = |log: &Log| (count(log, "t+"), count(log, "s+"), count(log, "s-"), count(log, "t-"));

    assert_eq!(traced.resume(&mut ()), Poll::Pending);
    assert_eq!(counts(&log), (1, 1, 1, 0));
    assert_eq!(traced.resume(&mut ()), Poll::Pending);
    assert_eq!(counts(&log), (1, 2, 2, 0));
    assert_eq!(traced.resume(&mut ()), Poll::Ready(77));
    assert_eq!(counts(&log), (1, 3, 3, 1));
}

fn run_to_end<T: Resume<(), Output = u64>>(t: &mut T) -> (u64, usize) {
    let mut steps = 0usize;
    loop {
        steps += 1;
        if let Poll::Ready(v) = t.resume(&mut ()) {
            return (v, steps);
        }
    }
}

#[test]
fn traces_are_transparent() {
    let plain_log = new_log();
    let plain = run_to_end(&mut Countdown::new(5, 42, &plain_log));
    assert_eq!(plain, (42, 5));

    let log = new_log();
    let mut a = Recorder { name: "t", log: log.clone() };
    let mut task_traced = Countdown::new(5, 42, &log).trace_task(&mut a);
    assert_eq!(run_to_end(&mut task_traced), plain);
    assert_eq!(count(&log, "step"), 5);

    let log = new_log();
    let mut b = Recorder { name: "s", log: log.clone() };
    let mut poll_traced = Countdown::new(5, 42, &log).trace_poll(&mut b);
    assert_eq!(run_to_end(&mut poll_traced), plain);
    assert_eq!(count(&log, "step"), 5);

    let log = new_log();
    let mut c = Recorder { name: "t", log: log.clone() };
    let mut d = Recorder { name: "s", log: log.clone() };
    let mut both = Countdown::new(5, 42, &log).trace_task_and_poll(&mut c, &mut d);
    assert_eq!(run_to_end(&mut both), plain);
    assert_eq!(count(&log, "step"), 5);
}

#[test]
fn traces_compose() {
    let log = new_log();
    let mut inner = Recorder { name: "s", log: log.clone() };
    let mut outer = Recorder { name: "t", log: log.clone() };
    let mut traced = Countdown::new(2, 3, &log).trace_poll(&mut inner).trace_task(&mut outer);
    assert_eq!(run_to_end(&mut traced), (3, 2));
    assert_eq!(
        entries(&log),
        strs(&["t+", "s+", "step", "s-", "s+", "step", "s-", "t-"])
    );
}

#[test]
fn task_trace_abandoned_while_suspended() {
    let log = new_log();
    let mut inst = Recorder { name: "t", log: log.clone() };
    {
        let mut traced = Countdown::new(3, 0, &log).trace_task(&mut inst);
        assert_eq!(traced.resume(&mut ()), Poll::Pending);
    }
    assert_eq!(count(&log, "t+"), 1);
    assert_eq!(count(&log, "t-"), 0);
}

#[test]
fn task_and_poll_trace_abandoned_while_suspended() {
    let log = new_log();
    let mut task = Recorder { name: "t", log: log.clone() };
    let mut poll = Recorder { name: "s", log: log.clone() };
    {
        let mut traced = Countdown::new(3, 0, &log).trace_task_and_poll(&mut task, &mut poll);
        assert_eq!(traced.resume(&mut ()), Poll::Pending);
        assert_eq!(traced.resume(&mut ()), Poll::Pending);
    }
    assert_eq!(
        entries(&log),
        strs(&["t+", "s+", "step", "s-", "s+", "step", "s-"])
    );
}

#[test]
fn never_resumed_trace_marks_nothing() {
    let log = new_log();
    let mut task = Recorder { name: "t", log: log.clone() };
    let mut poll = Recorder { name: "s", log: log.clone() };
    {
        let _traced = Countdown::new(1, 0, &log).trace_task_and_poll(&mut task, &mut poll);
    }
    assert!(entries(&log).is_empty());
}

#[test]
fn completes_on_first_step() {
    let log = new_log();
    let mut task = Recorder { name: "t", log: log.clone() };
    let mut poll = Recorder { name: "s", log: log.clone() };
    let mut traced = TraceTaskAndPollFuture::new(Countdown::new(1, 8, &log), &mut task, &mut poll);
    assert_eq!(traced.resume(&mut ()), Poll::Ready(8));
    assert_eq!(entries(&log), strs(&["t+", "s+", "step", "s-", "t-"]));

    let log = new_log();
    let mut inst = Recorder { name: "t", log: log.clone() };
    let mut traced = TraceTaskFuture::new(Countdown::new(1, 8, &log), &mut inst);
    assert_eq!(traced.resume(&mut ()), Poll::Ready(8));
    assert_eq!(entries(&log), strs(&["t+", "step", "t-"]));

    let log = new_log();
    let mut inst = Recorder { name: "s", log: log.clone() };
    let mut traced = TracePollFuture::new(Countdown::new(1, 8, &log), &mut inst);
    assert_eq!(traced.resume(&mut ()), Poll::Ready(8));
    assert_eq!(entries(&log), strs(&["s+", "step", "s-"]));
}

#[test]
fn resumed_after_completion_marks_again() {
    let log = new_log();
    let mut inst = Recorder { name: "t", log: log.clone() };
    let mut traced = Countdown::new(1, 4, &log).trace_task(&mut inst);
    assert_eq!(traced.resume(&mut ()), Poll::Ready(4));
    assert_eq!(traced.resume(&mut ()), Poll::Ready(4));
    assert_eq!(entries(&log), strs(&["t+", "step", "t-", "step", "t-"]));

    let log = new_log();
    let mut inst = Recorder { name: "s", log: log.clone() };
    let mut traced = Countdown::new(1, 4, &log).trace_poll(&mut inst);
    assert_eq!(traced.resume(&mut ()), Poll::Ready(4));
    assert_eq!(traced.resume(&mut ()), Poll::Ready(4));
    assert_eq!(entries(&log), strs(&["s+", "step", "s-", "s+", "step", "s-"]));
}

#[test]
fn separate_instruments_see_only_their_own_marks() {
    let task_log = new_log();
    let poll_log = new_log();
    let step_log = new_log();
    let mut task = Recorder { name: "t", log: task_log.clone() };
    let mut poll = Recorder { name: "s", log: poll_log.clone() };
    let mut traced = Countdown::new(3, 6, &step_log).trace_task_and_poll(&mut task, &mut poll);
    assert_eq!(run_to_end(&mut traced), (6, 3));
    assert_eq!(entries(&task_log), strs(&["t+", "t-"]));
    assert_eq!(entries(&poll_log), strs(&["s+", "s-", "s+", "s-", "s+", "s-"]));
    assert_eq!(count(&step_log, "step"), 3);
}
