//! What holds of every run of the rotation loop.

use vstd::prelude::*;
use crate::naming::{file_name_of, lemma_file_name_injective};
use crate::worker::{
    above, accepts, fresh_stamp, initial_state, run, step_spec, valid_run, Act, Event, Phase, WorkerState,
};

verus! {

/// How many files the actions ask to write.
pub open spec fn count_writes(acts: Seq<Act>) -> nat
    decreases acts.len(),
{
    if acts.len() == 0 {
        0
    } else {
        (if acts[0] is Write {
            1nat
        } else {
            0nat
        }) + count_writes(acts.drop_first())
    }
}

/// How many times the worker woke from a sleep of one interval.
pub open spec fn count_wakes(es: Seq<Event>) -> nat
    decreases es.len(),
{
    if es.len() == 0 {
        0
    } else {
        (if es[0] is Woke {
            1nat
        } else {
            0nat
        }) + count_wakes(es.drop_first())
    }
}

/// The event reads the stop flag as set, where it reads it at all.
pub open spec fn sees_stop(e: Event) -> bool {
    match e {
        Event::Woke { stop_requested, .. } => stop_requested,
        Event::ResetDone { stop_requested, .. } => stop_requested,
        _ => true,
    }
}

/// How many events a worker in `phase` can still take once stop is requested.
pub open spec fn stop_budget(phase: Phase) -> nat {
    match phase {
        Phase::Sleeping => 1,
        Phase::Capturing => 4,
        Phase::Encoding => 3,
        Phase::Writing => 2,
        Phase::Resetting => 1,
        Phase::Stopped => 0,
    }
}

/// A tick is under way and its reset has not been asked for yet.
pub open spec fn before_reset(phase: Phase) -> bool {
    phase == Phase::Capturing || phase == Phase::Encoding || phase == Phase::Writing
}

/// A write is owed to the current tick's wake.
pub open spec fn write_credit(phase: Phase) -> nat {
    if phase == Phase::Capturing || phase == Phase::Encoding {
        1
    } else {
        0
    }
}

proof fn lemma_run_tail(w: WorkerState, es: Seq<Event>)
    requires
        es.len() > 0,
    ensures
        run(w, es).1.len() == es.len(),
        run(w, es).1[0] == step_spec(w, es[0]).1,
        run(w, es).1.drop_first() == run(step_spec(w, es[0]).0, es.drop_first()).1,
        run(w, es).0 == run(step_spec(w, es[0]).0, es.drop_first()).0,
{
    lemma_run_len(w, es);
    let w1 = step_spec(w, es[0]).0;
    assert(run(w, es).1.drop_first() =~= run(w1, es.drop_first()).1);
}

proof fn lemma_run_len(w: WorkerState, es: Seq<Event>)
    ensures
        run(w, es).1.len() == es.len(),
    decreases es.len(),
{
    if es.len() > 0 {
        lemma_run_len(step_spec(w, es[0]).0, es.drop_first());
    }
}

proof fn lemma_step_wf(w: WorkerState, e: Event)
    requires
        w.wf(),
        accepts(w.phase, e),
    ensures
        step_spec(w, e).0.wf(),
        step_spec(w, e).0.prefix == w.prefix,
        step_spec(w, e).0.interval_ms == w.interval_ms,
        forall|s: nat| above(s, step_spec(w, e).0.last_stamp) ==> above(s, w.last_stamp),
{
}

/// Once stop is requested, the worker takes at most four more events and asks
/// for no further sleep: shutdown waits for at most the sleep under way and
/// the rest of one tick.
pub proof fn lemma_shutdown_bounded(w: WorkerState, es: Seq<Event>)
    requires
        valid_run(w, es),
        forall|i: int| 0 <= i < es.len() ==> sees_stop(#[trigger] es[i]),
    ensures
        es.len() <= stop_budget(w.phase) <= 4,
        forall|k: int| 0 <= k < es.len() ==> !(#[trigger] run(w, es).1[k] is Sleep),
    decreases es.len(),
{
    if es.len() > 0 {
        let w1 = step_spec(w, es[0]).0;
        let rest = es.drop_first();
        assert forall|i: int| 0 <= i < rest.len() implies sees_stop(#[trigger] rest[i]) by {
            assert(rest[i] == es[i + 1]);
        }
        assert(sees_stop(es[0]));
        lemma_shutdown_bounded(w1, rest);
        lemma_run_tail(w, es);
        let acts = run(w, es).1;
        assert forall|k: int| 0 <= k < es.len() implies !(#[trigger] acts[k] is Sleep) by {
            if k > 0 {
                assert(acts[k] == acts.drop_first()[k - 1]);
            }
        }
    }
}

proof fn lemma_writes_with_credit(w: WorkerState, es: Seq<Event>)
    requires
        valid_run(w, es),
    ensures
        count_writes(run(w, es).1) <= count_wakes(es) + write_credit(w.phase),
    decreases es.len(),
{
    if es.len() > 0 {
        let w1 = step_spec(w, es[0]).0;
        lemma_writes_with_credit(w1, es.drop_first());
        lemma_run_tail(w, es);
    }
}

proof fn lemma_wake_before_write(w: WorkerState, es: Seq<Event>)
    requires
        valid_run(w, es),
        write_credit(w.phase) == 0,
    ensures
        forall|i: int|
            0 <= i < es.len() && (#[trigger] run(w, es).1[i]) is Write ==> exists|j: int|
                0 <= j < i && #[trigger] es[j] is Woke,
    decreases es.len(),
{
    if es.len() > 0 {
        let w1 = step_spec(w, es[0]).0;
        let rest = es.drop_first();
        lemma_run_tail(w, es);
        let acts = run(w, es).1;
        if es[0] is Woke {
            assert forall|i: int| 0 <= i < es.len() && (#[trigger] acts[i]) is Write implies exists|
                j: int,
            | 0 <= j < i && #[trigger] es[j] is Woke by {
                assert(i != 0);
                assert(es[0] is Woke);
            }
        } else {
            lemma_wake_before_write(w1, rest);
            assert forall|i: int| 0 <= i < es.len() && (#[trigger] acts[i]) is Write implies exists|
                j: int,
            | 0 <= j < i && #[trigger] es[j] is Woke by {
                assert(i != 0);
                assert(acts[i] == run(w1, rest).1[i - 1]);
                let j = choose|j: int| 0 <= j < i - 1 && #[trigger] rest[j] is Woke;
                assert(es[j + 1] == rest[j]);
            }
        }
    }
}

/// From a fresh worker, the files written never outnumber the intervals
/// slept, and no file is written before the first interval has passed.
pub proof fn lemma_one_file_per_interval(prefix: Seq<char>, interval_ms: nat, es: Seq<Event>)
    requires
        valid_run(initial_state(prefix, interval_ms), es),
    ensures
        count_writes(run(initial_state(prefix, interval_ms), es).1) <= count_wakes(es),
        forall|i: int|
            0 <= i < es.len() && (#[trigger] run(initial_state(prefix, interval_ms), es).1[i]) is Write
                ==> exists|j: int| 0 <= j < i && #[trigger] es[j] is Woke,
{
    lemma_writes_with_credit(initial_state(prefix, interval_ms), es);
    lemma_wake_before_write(initial_state(prefix, interval_ms), es);
}

proof fn lemma_writes_above(w: WorkerState, es: Seq<Event>)
    requires
        w.wf(),
        valid_run(w, es),
    ensures
        forall|k: int|
            0 <= k < es.len() && (#[trigger] run(w, es).1[k]) is Write ==> run(w, es).1[k]->name
                == file_name_of(w.prefix, run(w, es).1[k]->stamp) && above(
                run(w, es).1[k]->stamp,
                w.last_stamp,
            ),
    decreases es.len(),
{
    if es.len() > 0 {
        let w1 = step_spec(w, es[0]).0;
        let rest = es.drop_first();
        lemma_step_wf(w, es[0]);
        lemma_writes_above(w1, rest);
        lemma_run_tail(w, es);
        let acts = run(w, es).1;
        assert forall|k: int| 0 <= k < es.len() && (#[trigger] acts[k]) is Write implies acts[k]->name
            == file_name_of(w.prefix, acts[k]->stamp) && above(acts[k]->stamp, w.last_stamp) by {
            if k > 0 {
                assert(acts[k] == run(w1, rest).1[k - 1]);
            }
        }
    }
}

/// No two ticks of a run write to the same file.
pub proof fn lemma_file_names_unique(w: WorkerState, es: Seq<Event>)
    requires
        w.wf(),
        valid_run(w, es),
    ensures
        forall|i: int, j: int|
            0 <= i < j < es.len() && (#[trigger] run(w, es).1[i]) is Write && (#[trigger] run(
                w,
                es,
            ).1[j]) is Write ==> run(w, es).1[i]->name != run(w, es).1[j]->name,
    decreases es.len(),
{
    if es.len() > 0 {
        let w1 = step_spec(w, es[0]).0;
        let rest = es.drop_first();
        lemma_step_wf(w, es[0]);
        lemma_file_names_unique(w1, rest);
        lemma_writes_above(w1, rest);
        lemma_writes_above(w, es);
        lemma_run_tail(w, es);
        let acts = run(w, es).1;
        let racts = run(w1, rest).1;
        assert forall|i: int, j: int|
            0 <= i < j < es.len() && (#[trigger] acts[i]) is Write && (#[trigger] acts[j]) is Write
                implies acts[i]->name != acts[j]->name by {
            assert(acts[j] == racts[j - 1]);
            if i > 0 {
                assert(acts[i] == racts[i - 1]);
            } else {
                assert(w1.last_stamp == Some(acts[0]->stamp));
                if acts[i]->name == acts[j]->name {
                    lemma_file_name_injective(w.prefix, acts[i]->stamp, acts[j]->stamp);
                }
            }
        }
    }
}

proof fn lemma_reset_before_capture(w: WorkerState, es: Seq<Event>)
    requires
        valid_run(w, es),
        before_reset(w.phase),
    ensures
        forall|j: int|
            0 <= j < es.len() && (#[trigger] run(w, es).1[j]) is Capture ==> exists|k: int|
                0 <= k < j && (#[trigger] run(w, es).1[k]) is Reset,
    decreases es.len(),
{
    if es.len() > 0 {
        let w1 = step_spec(w, es[0]).0;
        let rest = es.drop_first();
        lemma_run_tail(w, es);
        let acts = run(w, es).1;
        let racts = run(w1, rest).1;
        if !(acts[0] is Reset) {
            lemma_reset_before_capture(w1, rest);
        }
        assert forall|j: int| 0 <= j < es.len() && (#[trigger] acts[j]) is Capture implies exists|
            k: int,
        | 0 <= k < j && (#[trigger] acts[k]) is Reset by {
            assert(j != 0);
            if !(acts[0] is Reset) {
                assert(acts[j] == racts[j - 1]);
                let k = choose|k: int| 0 <= k < j - 1 && (#[trigger] racts[k]) is Reset;
                assert(acts[k + 1] == racts[k]);
            }
        }
    }
}

/// Between any two captures the session is reset: no report repeats the
/// samples of an earlier one.
pub proof fn lemma_reset_between_captures(w: WorkerState, es: Seq<Event>)
    requires
        valid_run(w, es),
    ensures
        forall|i: int, j: int|
            0 <= i < j < es.len() && (#[trigger] run(w, es).1[i]) is Capture && (#[trigger] run(
                w,
                es,
            ).1[j]) is Capture ==> exists|k: int|
                i < k < j && (#[trigger] run(w, es).1[k]) is Reset,
    decreases es.len(),
{
    if es.len() > 0 {
        let w1 = step_spec(w, es[0]).0;
        let rest = es.drop_first();
        lemma_run_tail(w, es);
        let acts = run(w, es).1;
        let racts = run(w1, rest).1;
        lemma_reset_between_captures(w1, rest);
        if acts[0] is Capture {
            lemma_reset_before_capture(w1, rest);
        }
        assert forall|i: int, j: int|
            0 <= i < j < es.len() && (#[trigger] acts[i]) is Capture && (#[trigger] acts[j]) is Capture
                implies exists|k: int| i < k < j && (#[trigger] acts[k]) is Reset by {
            assert(acts[j] == racts[j - 1]);
            if i > 0 {
                assert(acts[i] == racts[i - 1]);
                let k = choose|k: int| i - 1 < k < j - 1 && (#[trigger] racts[k]) is Reset;
                assert(acts[k + 1] == racts[k]);
            } else {
                let k = choose|k: int| 0 <= k < j - 1 && (#[trigger] racts[k]) is Reset;
                assert(acts[k + 1] == racts[k]);
            }
        }
    }
}

/// The events of a tick woken at `now` that fails at `stage`: its capture
/// (0), its encoding (1) or its write (2).
pub open spec fn failed_tick(now: u64, stage: nat, reset_ok: bool) -> Seq<Event> {
    let wake = Event::Woke { now, stop_requested: false };
    let reset = Event::ResetDone { ok: reset_ok, stop_requested: false };
    if stage == 0 {
        seq![wake, Event::Captured { ok: false }, reset]
    } else if stage == 1 {
        seq![wake, Event::Captured { ok: true }, Event::Encoded { ok: false }, reset]
    } else {
        seq![
            wake,
            Event::Captured { ok: true },
            Event::Encoded { ok: true },
            Event::Written { ok: false },
            reset,
        ]
    }
}

/// The events of a tick woken at `now` whose every step succeeds.
pub open spec fn clean_tick(now: u64) -> Seq<Event> {
    seq![
        Event::Woke { now, stop_requested: false },
        Event::Captured { ok: true },
        Event::Encoded { ok: true },
        Event::Written { ok: true },
        Event::ResetDone { ok: true, stop_requested: false },
    ]
}

/// A tick that fails in its capture, encoding or write, and whose reset may
/// fail too, still resets the session and leaves the worker asleep for one
/// interval with its configuration unchanged, ready for the next tick. (A
/// failed write needs a stamp to have been at hand: without one no write is
/// asked for.)
pub proof fn lemma_failed_tick_recovers(w: WorkerState, now: u64, stage: nat, reset_ok: bool)
    requires
        w.wf(),
        w.phase == Phase::Sleeping,
        stage <= 2,
        stage == 2 ==> fresh_stamp(w.last_stamp, now as nat) is Some,
    ensures
        valid_run(w, failed_tick(now, stage, reset_ok)),
        run(w, failed_tick(now, stage, reset_ok)).0.wf(),
        run(w, failed_tick(now, stage, reset_ok)).0.phase == Phase::Sleeping,
        run(w, failed_tick(now, stage, reset_ok)).0.prefix == w.prefix,
        run(w, failed_tick(now, stage, reset_ok)).0.interval_ms == w.interval_ms,
        run(w, failed_tick(now, stage, reset_ok)).1.last() == Act::Sleep(w.interval_ms),
        run(w, failed_tick(now, stage, reset_ok)).1[stage + 1 as int] == Act::Reset,
{
    reveal_with_fuel(run, 6);
    reveal_with_fuel(valid_run, 6);
    let es = failed_tick(now, stage, reset_ok);
    lemma_run_len(w, es);
    if stage == 0 {
        assert(valid_run(w, es));
    } else if stage == 1 {
        assert(valid_run(w, es));
    } else {
        assert(valid_run(w, es));
    }
}

/// A tick whose steps all succeed, woken when a fresh stamp is at hand,
/// writes one file named from that stamp, resets the session and sleeps again.
pub proof fn lemma_clean_tick_writes(w: WorkerState, now: u64)
    requires
        w.wf(),
        w.phase == Phase::Sleeping,
        fresh_stamp(w.last_stamp, now as nat) is Some,
    ensures
        valid_run(w, clean_tick(now)),
        run(w, clean_tick(now)).0.wf(),
        run(w, clean_tick(now)).0.phase == Phase::Sleeping,
        run(w, clean_tick(now)).0.last_stamp == fresh_stamp(w.last_stamp, now as nat),
        run(w, clean_tick(now)).1 == seq![
            Act::Capture,
            Act::Encode,
            Act::Write {
                name: file_name_of(w.prefix, fresh_stamp(w.last_stamp, now as nat)->0),
                stamp: fresh_stamp(w.last_stamp, now as nat)->0,
            },
            Act::Reset,
            Act::Sleep(w.interval_ms),
        ],
{
    reveal_with_fuel(run, 6);
    reveal_with_fuel(valid_run, 6);
    let es = clean_tick(now);
    assert(run(w, es).1 =~= seq![
        Act::Capture,
        Act::Encode,
        Act::Write {
            name: file_name_of(w.prefix, fresh_stamp(w.last_stamp, now as nat)->0),
            stamp: fresh_stamp(w.last_stamp, now as nat)->0,
        },
        Act::Reset,
        Act::Sleep(w.interval_ms),
    ]);
}

/// The events of consecutive clean ticks woken at `nows`.
pub open spec fn clean_ticks(nows: Seq<u64>) -> Seq<Event>
    decreases nows.len(),
{
    if nows.len() == 0 {
        Seq::empty()
    } else {
        clean_tick(nows[0]) + clean_ticks(nows.drop_first())
    }
}

proof fn lemma_run_append(w: WorkerState, a: Seq<Event>, b: Seq<Event>)
    ensures
        valid_run(w, a + b) == (valid_run(w, a) && valid_run(run(w, a).0, b)),
        run(w, a + b).0 == run(run(w, a).0, b).0,
        run(w, a + b).1 == run(w, a).1 + run(run(w, a).0, b).1,
    decreases a.len(),
{
    if a.len() == 0 {
        assert(a + b =~= b);
        assert(run(w, a).1 + run(w, b).1 =~= run(w, b).1);
    } else {
        let w1 = step_spec(w, a[0]).0;
        assert((a + b)[0] == a[0]);
        assert((a + b).drop_first() =~= a.drop_first() + b);
        lemma_run_append(w1, a.drop_first(), b);
        assert(run(w, a + b).1 =~= run(w, a).1 + run(run(w, a).0, b).1);
    }
}

proof fn lemma_count_writes_append(a: Seq<Act>, b: Seq<Act>)
    ensures
        count_writes(a + b) == count_writes(a) + count_writes(b),
    decreases a.len(),
{
    if a.len() == 0 {
        assert(a + b =~= b);
    } else {
        assert((a + b).drop_first() =~= a.drop_first() + b);
        lemma_count_writes_append(a.drop_first(), b);
    }
}

proof fn lemma_count_wakes_append(a: Seq<Event>, b: Seq<Event>)
    ensures
        count_wakes(a + b) == count_wakes(a) + count_wakes(b),
    decreases a.len(),
{
    if a.len() == 0 {
        assert(a + b =~= b);
    } else {
        assert((a + b).drop_first() =~= a.drop_first() + b);
        lemma_count_wakes_append(a.drop_first(), b);
    }
}

/// The clock reads past the last stamp at each wake.
pub open spec fn clock_advances(last: Option<nat>, nows: Seq<u64>) -> bool {
    &&& nows.len() > 0 ==> above(nows[0] as nat, last)
    &&& forall|i: int, j: int| 0 <= i < j < nows.len() ==> #[trigger] nows[i] < #[trigger] nows[j]
}

/// When every step succeeds and the clock has moved on at each wake, each
/// interval slept gives exactly one file, named from the wake's clock reading.
pub proof fn lemma_clean_run_writes_each_interval(w: WorkerState, nows: Seq<u64>)
    requires
        w.wf(),
        w.phase == Phase::Sleeping,
        clock_advances(w.last_stamp, nows),
    ensures
        valid_run(w, clean_ticks(nows)),
        run(w, clean_ticks(nows)).0.phase == Phase::Sleeping,
        count_wakes(clean_ticks(nows)) == nows.len(),
        count_writes(run(w, clean_ticks(nows)).1) == nows.len(),
    decreases nows.len(),
{
    if nows.len() > 0 {
        let first = clean_tick(nows[0]);
        let rest = nows.drop_first();
        lemma_clean_tick_writes(w, nows[0]);
        let w1 = run(w, first).0;
        assert(w1.last_stamp == Some(nows[0] as nat));
        assert(clock_advances(w1.last_stamp, rest)) by {
            if rest.len() > 0 {
                assert(rest[0] == nows[1]);
            }
            assert forall|i: int, j: int| 0 <= i < j < rest.len() implies #[trigger] rest[i]
                < #[trigger] rest[j] by {
                assert(rest[i] == nows[i + 1]);
                assert(rest[j] == nows[j + 1]);
            }
        }
        lemma_clean_run_writes_each_interval(w1, rest);
        lemma_run_append(w, first, clean_ticks(rest));
        lemma_count_writes_append(run(w, first).1, run(w1, clean_ticks(rest)).1);
        lemma_count_wakes_append(first, clean_ticks(rest));
        reveal_with_fuel(count_writes, 6);
        reveal_with_fuel(count_wakes, 6);
        assert(count_writes(run(w, first).1) == 1);
        assert(count_wakes(first) == 1);
    }
}

} // verus!
