use continuous_profiler::builder::{ConfigError, ContinuousProfilerGuard, ContinuousProfilerGuardBuilder};
use continuous_profiler::naming::{decimal_string, file_name};
use continuous_profiler::worker::{Action, Event, Phase, Worker};

fn guard(prefix: &str, interval_ms: u64) -> ContinuousProfilerGuard {
    ContinuousProfilerGuardBuilder::new("out".to_string())
        .prefix(prefix)
        .rotate_interval(interval_ms)
        .build()
        .unwrap()
}

fn wake(now: u64) -> Event {
    Event::Woke { now, stop_requested: false }
}

fn reset_done() -> Event {
    Event::ResetDone { ok: true, stop_requested: false }
}

/// Runs one tick whose steps all succeed and returns the file it writes.
fn clean_tick(w: &mut Worker, now: u64) -> String {
    assert_eq!(w.step(wake(now)), Action::Capture);
    assert_eq!(w.step(Event::Captured { ok: true }), Action::Encode);
    let name = match w.step(Event::Encoded { ok: true }) {
        Action::Write { file_name, .. } => file_name,
        other => panic!("expected a write, got {:?}", other),
    };
    assert_eq!(w.step(Event::Written { ok: true }), Action::Reset);
    assert!(matches!(w.step(reset_done()), Action::Sleep { .. }));
    name
}

#[test]
fn builder_defaults() {
    let g = ContinuousProfilerGuardBuilder::new("dir".to_string()).build().unwrap();
    assert_eq!(g.prefix(), "profile");
    assert_eq!(g.rotate_interval_ms(), 60000);
    assert_eq!(g.frequency(), None);
    assert!(g.blocklist().is_none());
    assert_eq!(g.base_dir(), "dir");
}

#[test]
fn builder_setters_last_write_wins() {
    let g = ContinuousProfilerGuardBuilder::new("a".to_string())
        .prefix("one")
        .frequency(99)
        .base_dir("b".to_string())
        .rotate_interval(5)
        .prefix("two")
        .frequency(1000)
        .blocklist(&["libc", "libgcc", "pthread"])
        .build()
        .unwrap();
    assert_eq!(g.prefix(), "two");
    assert_eq!(g.frequency(), Some(1000));
    assert_eq!(g.base_dir(), "b");
    assert_eq!(g.rotate_interval_ms(), 5);
    let list = g.blocklist().as_ref().unwrap();
    assert_eq!(list, &vec!["libc".to_string(), "libgcc".to_string(), "pthread".to_string()]);
}

#[test]
fn builder_setter_order_irrelevant() {
    let a = ContinuousProfilerGuardBuilder::new("d".to_string())
        .prefix("p")
        .rotate_interval(7)
        .build()
        .unwrap();
    let b = ContinuousProfilerGuardBuilder::new("d".to_string())
        .rotate_interval(7)
        .prefix("p")
        .build()
        .unwrap();
    assert_eq!(a.prefix(), b.prefix());
    assert_eq!(a.rotate_interval_ms(), b.rotate_interval_ms());
}

#[test]
fn build_refuses_zero_interval() {
    let r = ContinuousProfilerGuardBuilder::new("d".to_string()).rotate_interval(0).build();
    assert_eq!(r.err(), Some(ConfigError::ZeroRotateInterval));
}

#[test]
fn guard_new_sets_frequency() {
    let g = ContinuousProfilerGuard::new(99, "d".to_string()).unwrap();
    assert_eq!(g.frequency(), Some(99));
    assert_eq!(g.prefix(), "profile");
    assert_eq!(g.rotate_interval_ms(), 60000);
}

#[test]
fn decimal_forms() {
    assert_eq!(decimal_string(0), "0");
    assert_eq!(decimal_string(7), "7");
    assert_eq!(decimal_string(10), "10");
    assert_eq!(decimal_string(1234567890), "1234567890");
    assert_eq!(decimal_string(u64::MAX), "18446744073709551615");
}

#[test]
fn file_name_shape() {
    assert_eq!(file_name("svc", 1000), "svc-1000.pb");
    assert_eq!(file_name("", 0), "-0.pb");
}

#[test]
fn worker_starts_asleep() {
    let (w, first) = Worker::new(&guard("svc", 250));
    assert_eq!(first, Action::Sleep { millis: 250 });
    assert_eq!(w.phase(), Phase::Sleeping);
    assert!(w.accepts(&wake(1)));
    assert!(!w.accepts(&Event::Captured { ok: true }));
}

#[test]
fn three_intervals_then_stop() {
    let (mut w, _) = Worker::new(&guard("svc", 1000));
    let mut names = Vec::new();
    for now in [1000u64, 2000, 3000] {
        names.push(clean_tick(&mut w, now));
    }
    // stop requested at 3500: the next wake exits without another tick
    assert_eq!(w.step(Event::Woke { now: 4000, stop_requested: true }), Action::Exit);
    assert_eq!(w.phase(), Phase::Stopped);
    assert_eq!(names, vec!["svc-1000.pb", "svc-2000.pb", "svc-3000.pb"]);
}

#[test]
fn no_file_before_first_wake() {
    let (mut w, first) = Worker::new(&guard("p", 10));
    assert!(matches!(first, Action::Sleep { .. }));
    assert!(!w.accepts(&Event::Encoded { ok: true }));
    assert_eq!(w.step(Event::Woke { now: 5, stop_requested: true }), Action::Exit);
}

#[test]
fn names_unique_when_clock_stalls() {
    let (mut w, _) = Worker::new(&guard("p", 10));
    let a = clean_tick(&mut w, 50);
    let b = clean_tick(&mut w, 50);
    let c = clean_tick(&mut w, 40);
    let d = clean_tick(&mut w, 100);
    assert_eq!(a, "p-50.pb");
    assert_eq!(b, "p-51.pb");
    assert_eq!(c, "p-52.pb");
    assert_eq!(d, "p-100.pb");
}

#[test]
fn no_write_once_stamps_run_out() {
    let (mut w, _) = Worker::new(&guard("p", 10));
    let last = clean_tick(&mut w, u64::MAX);
    assert_eq!(last, "p-18446744073709551615.pb");
    assert_eq!(w.step(wake(3)), Action::Capture);
    assert_eq!(w.step(Event::Captured { ok: true }), Action::Encode);
    assert_eq!(w.step(Event::Encoded { ok: true }), Action::Reset);
    assert_eq!(w.step(reset_done()), Action::Sleep { millis: 10 });
}

#[test]
fn capture_failure_is_contained() {
    let (mut w, _) = Worker::new(&guard("p", 10));
    assert_eq!(w.step(wake(1)), Action::Capture);
    assert_eq!(w.step(Event::Captured { ok: false }), Action::Reset);
    assert_eq!(w.step(reset_done()), Action::Sleep { millis: 10 });
    assert_eq!(clean_tick(&mut w, 2), "p-2.pb");
}

#[test]
fn encode_failure_is_contained() {
    let (mut w, _) = Worker::new(&guard("p", 10));
    assert_eq!(w.step(wake(1)), Action::Capture);
    assert_eq!(w.step(Event::Captured { ok: true }), Action::Encode);
    assert_eq!(w.step(Event::Encoded { ok: false }), Action::Reset);
    assert_eq!(w.step(reset_done()), Action::Sleep { millis: 10 });
    // the stamp of the failed tick was never used
    assert_eq!(clean_tick(&mut w, 1), "p-1.pb");
}

#[test]
fn write_failure_is_contained() {
    let (mut w, _) = Worker::new(&guard("p", 10));
    assert_eq!(w.step(wake(1)), Action::Capture);
    assert_eq!(w.step(Event::Captured { ok: true }), Action::Encode);
    assert_eq!(
        w.step(Event::Encoded { ok: true }),
        Action::Write { file_name: "p-1.pb".to_string(), stamp: 1 }
    );
    assert_eq!(w.step(Event::Written { ok: false }), Action::Reset);
    assert_eq!(w.step(reset_done()), Action::Sleep { millis: 10 });
    assert_eq!(clean_tick(&mut w, 2), "p-2.pb");
}

#[test]
fn reset_failure_is_contained() {
    let (mut w, _) = Worker::new(&guard("p", 10));
    assert_eq!(w.step(wake(1)), Action::Capture);
    assert_eq!(w.step(Event::Captured { ok: false }), Action::Reset);
    assert_eq!(
        w.step(Event::ResetDone { ok: false, stop_requested: false }),
        Action::Sleep { millis: 10 }
    );
    assert_eq!(clean_tick(&mut w, 2), "p-2.pb");
}

#[test]
fn stop_seen_after_tick() {
    let (mut w, _) = Worker::new(&guard("p", 10));
    assert_eq!(w.step(wake(1)), Action::Capture);
    assert_eq!(w.step(Event::Captured { ok: true }), Action::Encode);
    assert!(matches!(w.step(Event::Encoded { ok: true }), Action::Write { .. }));
    assert_eq!(w.step(Event::Written { ok: true }), Action::Reset);
    assert_eq!(w.step(Event::ResetDone { ok: true, stop_requested: true }), Action::Exit);
    assert_eq!(w.phase(), Phase::Stopped);
    assert!(!w.accepts(&wake(2)));
}
