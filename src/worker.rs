//! The rotation loop as a state machine. The worker sleeps for the interval,
//! then runs one tick: capture a report, encode it, write it to a fresh file,
//! reset the session. Every failure inside a tick is contained: the tick goes
//! on to the reset, and the loop to the next interval. A stop request is seen
//! when the worker wakes and when a tick ends.
//!
//! The worker decides; its caller performs each `Action` it hands out and
//! reports back how it went as an `Event`.

use vstd::prelude::*;
use crate::builder::ContinuousProfilerGuard;
use crate::naming::{file_name, file_name_of};

verus! {

/// Where the worker stands in its loop.
#[derive(Debug, Clone, Copy, PartialEq, Eq, Structural)]
pub enum Phase {
    /// Waiting out the interval.
    Sleeping,
    /// A report has been asked for.
    Capturing,
    /// The report is being encoded.
    Encoding,
    /// The encoded report is being written.
    Writing,
    /// The session is being reset.
    Resetting,
    /// The loop has ended.
    Stopped,
}

/// What came of the last action.
#[derive(Debug, Clone, Copy, PartialEq, Eq, Structural)]
pub enum Event {
    /// The sleep is over; `now` reads the clock, `stop_requested` the stop flag.
    Woke { now: u64, stop_requested: bool },
    Captured { ok: bool },
    Encoded { ok: bool },
    Written { ok: bool },
    /// The session was reset; `stop_requested` reads the stop flag.
    ResetDone { ok: bool, stop_requested: bool },
}

/// What the caller is to do next.
#[derive(Debug, PartialEq, Eq)]
pub enum Action {
    Sleep { millis: u64 },
    Capture,
    Encode,
    /// Write the encoded report to `file_name` inside the output directory.
    Write { file_name: String, stamp: u64 },
    Reset,
    Exit,
}

/// The abstract value of an `Action`.
pub enum Act {
    Sleep(nat),
    Capture,
    Encode,
    Write { name: Seq<char>, stamp: nat },
    Reset,
    Exit,
}

impl View for Action {
    type V = Act;

    open spec fn view(&self) -> Act {
        match self {
            Action::Sleep { millis } => Act::Sleep(*millis as nat),
            Action::Capture => Act::Capture,
            Action::Encode => Act::Encode,
            Action::Write { file_name, stamp } => Act::Write { name: file_name@, stamp: *stamp as nat },
            Action::Reset => Act::Reset,
            Action::Exit => Act::Exit,
        }
    }
}

/// The abstract state of a worker.
pub struct WorkerState {
    pub prefix: Seq<char>,
    pub interval_ms: nat,
    pub phase: Phase,
    /// The stamp of the last file name handed out.
    pub last_stamp: Option<nat>,
    /// The stamp reserved for the tick under way.
    pub pending: Option<nat>,
}

pub open spec fn nat_opt(o: Option<u64>) -> Option<nat> {
    match o {
        Some(v) => Some(v as nat),
        None => None,
    }
}

/// `s` lies beyond every stamp handed out so far.
pub open spec fn above(s: nat, last: Option<nat>) -> bool {
    match last {
        Some(l) => s > l,
        None => true,
    }
}

/// The stamp for a tick woken at `now`: the clock's reading when it has moved
/// past the last stamp, else one past the last stamp; none once stamps run out.
pub open spec fn fresh_stamp(last: Option<nat>, now: nat) -> Option<nat> {
    match last {
        None => Some(now),
        Some(l) => if now > l {
            Some(now)
        } else if l < u64::MAX {
            Some(l + 1)
        } else {
            None
        },
    }
}

impl WorkerState {
    pub open spec fn wf(self) -> bool {
        &&& self.interval_ms > 0
        &&& match self.pending {
            Some(s) => (self.phase == Phase::Capturing || self.phase == Phase::Encoding) && above(
                s,
                self.last_stamp,
            ),
            None => true,
        }
    }
}

/// A worker for `prefix` and `interval_ms`, asleep, with no file written yet.
pub open spec fn initial_state(prefix: Seq<char>, interval_ms: nat) -> WorkerState {
    WorkerState { prefix, interval_ms, phase: Phase::Sleeping, last_stamp: None, pending: None }
}

/// The events a worker in `phase` waits for.
pub open spec fn accepts(phase: Phase, e: Event) -> bool {
    match e {
        Event::Woke { .. } => phase == Phase::Sleeping,
        Event::Captured { .. } => phase == Phase::Capturing,
        Event::Encoded { .. } => phase == Phase::Encoding,
        Event::Written { .. } => phase == Phase::Writing,
        Event::ResetDone { .. } => phase == Phase::Resetting,
    }
}

/// One transition: the next state and the action it asks for.
pub open spec fn step_spec(w: WorkerState, e: Event) -> (WorkerState, Act) {
    match e {
        Event::Woke { now, stop_requested } => if stop_requested {
            (WorkerState { phase: Phase::Stopped, ..w }, Act::Exit)
        } else {
            (
                WorkerState {
                    phase: Phase::Capturing,
                    pending: fresh_stamp(w.last_stamp, now as nat),
                    ..w
                },
                Act::Capture,
            )
        },
        Event::Captured { ok } => if ok {
            (WorkerState { phase: Phase::Encoding, ..w }, Act::Encode)
        } else {
            (WorkerState { phase: Phase::Resetting, pending: None, ..w }, Act::Reset)
        },
        Event::Encoded { ok } => match w.pending {
            Some(s) => if ok {
                (
                    WorkerState {
                        phase: Phase::Writing,
                        last_stamp: Some(s),
                        pending: None,
                        ..w
                    },
                    Act::Write { name: file_name_of(w.prefix, s), stamp: s },
                )
            } else {
                (WorkerState { phase: Phase::Resetting, pending: None, ..w }, Act::Reset)
            },
            None => (WorkerState { phase: Phase::Resetting, pending: None, ..w }, Act::Reset),
        },
        Event::Written { .. } => (WorkerState { phase: Phase::Resetting, ..w }, Act::Reset),
        Event::ResetDone { stop_requested, .. } => if stop_requested {
            (WorkerState { phase: Phase::Stopped, ..w }, Act::Exit)
        } else {
            (WorkerState { phase: Phase::Sleeping, ..w }, Act::Sleep(w.interval_ms))
        },
    }
}

/// Every event of `es` is one the worker waits for when it comes.
pub open spec fn valid_run(w: WorkerState, es: Seq<Event>) -> bool
    decreases es.len(),
{
    es.len() == 0 || (accepts(w.phase, es[0]) && valid_run(step_spec(w, es[0]).0, es.drop_first()))
}

/// The state reached and the actions handed out while `es` comes in.
pub open spec fn run(w: WorkerState, es: Seq<Event>) -> (WorkerState, Seq<Act>)
    decreases es.len(),
{
    if es.len() == 0 {
        (w, Seq::empty())
    } else {
        let (w1, a) = step_spec(w, es[0]);
        let (wn, acts) = run(w1, es.drop_first());
        (wn, seq![a] + acts)
    }
}

/// The rotation loop's decisions.
pub struct Worker {
    prefix: String,
    interval_ms: u64,
    phase: Phase,
    last_stamp: Option<u64>,
    pending: Option<u64>,
}

impl View for Worker {
    type V = WorkerState;

    closed spec fn view(&self) -> WorkerState {
        WorkerState {
            prefix: self.prefix@,
            interval_ms: self.interval_ms as nat,
            phase: self.phase,
            last_stamp: nat_opt(self.last_stamp),
            pending: nat_opt(self.pending),
        }
    }
}

fn next_stamp(last: Option<u64>, now: u64) -> (r: Option<u64>)
    ensures
        nat_opt(r) == fresh_stamp(nat_opt(last), now as nat),
{
    match last {
        None => Some(now),
        Some(l) => if now > l {
            Some(now)
        } else if l < u64::MAX {
            Some(l + 1)
        } else {
            None
        },
    }
}

impl Worker {
    /// A worker for a built configuration, and its first action: sleep.
    pub fn new(guard: &ContinuousProfilerGuard) -> (r: (Worker, Action))
        requires
            guard.wf(),
        ensures
            r.0@ == initial_state(guard@.prefix, guard@.rotate_interval_ms),
            r.0@.wf(),
            r.1@ == Act::Sleep(guard@.rotate_interval_ms),
    {
        let interval_ms = guard.rotate_interval_ms();
        let w = Worker {
            prefix: guard.prefix().to_owned(),
            interval_ms,
            phase: Phase::Sleeping,
            last_stamp: None,
            pending: None,
        };
        (w, Action::Sleep { millis: interval_ms })
    }

    pub fn phase(&self) -> (r: Phase)
        ensures
            r == self@.phase,
    {
        self.phase
    }

    /// Whether the worker waits for `event` now.
    pub fn accepts(&self, event: &Event) -> (r: bool)
        ensures
            r == accepts(self@.phase, *event),
    {
        match event {
            Event::Woke { .. } => self.phase == Phase::Sleeping,
            Event::Captured { .. } => self.phase == Phase::Capturing,
            Event::Encoded { .. } => self.phase == Phase::Encoding,
            Event::Written { .. } => self.phase == Phase::Writing,
            Event::ResetDone { .. } => self.phase == Phase::Resetting,
        }
    }

    /// Takes in what came of the last action and says what to do next.
    pub fn step(&mut self, event: Event) -> (r: Action)
        requires
            old(self)@.wf(),
            accepts(old(self)@.phase, event),
        ensures
            final(self)@.wf(),
            (final(self)@, r@) == step_spec(old(self)@, event),
    {
        match event {
            Event::Woke { now, stop_requested } => {
                if stop_requested {
                    self.phase = Phase::Stopped;
                    Action::Exit
                } else {
                    self.pending = next_stamp(self.last_stamp, now);
                    self.phase = Phase::Capturing;
                    Action::Capture
                }
            },
            Event::Captured { ok } => {
                if ok {
                    self.phase = Phase::Encoding;
                    Action::Encode
                } else {
                    self.phase = Phase::Resetting;
                    self.pending = None;
                    Action::Reset
                }
            },
            Event::Encoded { ok } => {
                let pending = self.pending;
                self.pending = None;
                match pending {
                    Some(s) => {
                        if ok {
                            self.phase = Phase::Writing;
                            self.last_stamp = Some(s);
                            let name = file_name(self.prefix.as_str(), s);
                            Action::Write { file_name: name, stamp: s }
                        } else {
                            self.phase = Phase::Resetting;
                            Action::Reset
                        }
                    },
                    None => {
                        self.phase = Phase::Resetting;
                        Action::Reset
                    },
                }
            },
            Event::Written { .. } => {
                self.phase = Phase::Resetting;
                Action::Reset
            },
            Event::ResetDone { stop_requested, .. } => {
                if stop_requested {
                    self.phase = Phase::Stopped;
                    Action::Exit
                } else {
                    self.phase = Phase::Sleeping;
                    Action::Sleep { millis: self.interval_ms }
                }
            },
        }
    }
}

} // verus!
