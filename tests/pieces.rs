use extism_runtime::dispatch::{check_arity, classify, is_start, is_timeout, CallOutcome};
use extism_runtime::error::HostError;
use extism_runtime::logging::{log_settings, log_target, parse_level, LogLevel, LogTarget};
use extism_runtime::manifest::Manifest;
use extism_runtime::memory::{Memory, MemoryBlock};
use extism_runtime::watchdog::{deadline_after, TimerSignal, Watchdog};

#[test]
fn block_range_respects_bounds() {
    let m = Memory::new(100);
    assert_eq!(m.block_range(MemoryBlock::new(10, 20)), Some((10, 30)));
    assert_eq!(m.block_range(MemoryBlock::new(0, 100)), Some((0, 100)));
    assert_eq!(m.block_range(MemoryBlock::new(90, 11)), None);
    assert_eq!(m.block_range(MemoryBlock::new(101, 0)), None);
    assert_eq!(m.block_range(MemoryBlock::new(u64::MAX, 2)), None);
}

#[test]
fn arity_check() {
    assert!(matches!(check_arity(&"f".to_string(), 0), Ok(0)));
    assert!(matches!(check_arity(&"f".to_string(), 1), Ok(1)));
    assert_eq!(
        check_arity(&"f".to_string(), 3).unwrap_err(),
        HostError::TooManyResults { name: "f".to_string(), count: 3 }
    );
}

#[test]
fn classify_priorities() {
    assert_eq!(classify(CallOutcome::Returned(None)), (0, None));
    assert_eq!(classify(CallOutcome::Returned(Some(-7))), (-7, None));
    assert_eq!(
        classify(CallOutcome::Trapped { root_cause: "timeout".into(), message: "m".into() }),
        (-1, Some(HostError::Timeout))
    );
    assert_eq!(
        classify(CallOutcome::Trapped { root_cause: "timeouts".into(), message: "m".into() }),
        (-1, Some(HostError::CallFailed("m".into())))
    );
    assert_eq!(
        classify(CallOutcome::Exit { code: 2, message: "x".into() }),
        (2, Some(HostError::Exit { code: 2, message: "x".into() }))
    );
    assert!(is_timeout(&"timeout".to_string()) && !is_timeout(&"Timeout".to_string()));
    assert!(is_start(&"_start".to_string()) && !is_start(&"start".to_string()));
}

#[test]
fn manifest_insert_get_remove() {
    let mut m = Manifest::new(false);
    m.insert("a".into(), "1".into());
    m.insert("a".into(), "2".into());
    m.insert("b".into(), "3".into());
    assert_eq!(m.get(&"a".to_string()), Some("2".to_string()));
    m.remove(&"a".to_string());
    m.remove(&"zz".to_string());
    assert_eq!(m.get(&"a".to_string()), None);
    assert_eq!(m.config, vec![("b".to_string(), "3".to_string())]);
    assert!(m.wasi.is_none());
}

#[test]
fn manifest_merge_in_order() {
    let mut m = Manifest::new(true);
    m.merge(vec![
        ("x".into(), Some("1".into())),
        ("x".into(), None),
        ("y".into(), Some("2".into())),
    ]);
    assert_eq!(m.config, vec![("y".to_string(), "2".to_string())]);
    assert_eq!(m.wasi.unwrap().env.len(), 3);
}

#[test]
fn watchdog_trips_due_timers_only() {
    let mut w = Watchdog::new();
    w.handle(TimerSignal::Start { timer_id: 1, deadline: 50 });
    w.handle(TimerSignal::Start { timer_id: 2, deadline: 10 });
    w.handle(TimerSignal::Start { timer_id: 3, deadline: 30 });
    assert_eq!(w.next_deadline(), Some(10));
    assert_eq!(w.tick(5), Vec::<u64>::new());
    assert_eq!(w.tick(30), vec![2, 3]);
    assert_eq!(w.timers, vec![(1, 50)]);
    assert_eq!(w.tick(30), Vec::<u64>::new());
    w.handle(TimerSignal::Stop { timer_id: 1 });
    w.handle(TimerSignal::Stop { timer_id: 1 });
    assert_eq!(w.next_deadline(), None);
    assert_eq!(w.tick(u64::MAX), Vec::<u64>::new());
}

#[test]
fn watchdog_rearm_replaces_deadline() {
    let mut w = Watchdog::new();
    w.arm(4, 100);
    w.arm(4, 20);
    assert_eq!(w.timers, vec![(4, 20)]);
    assert_eq!(w.tick(20), vec![4]);
    w.disarm(4);
    assert!(w.timers.is_empty());
}

#[test]
fn deadline_overflow() {
    assert_eq!(deadline_after(10, 5), Some(15));
    assert_eq!(deadline_after(u64::MAX, 1), None);
}

#[test]
fn level_names_ignore_case() {
    assert_eq!(parse_level("WARN"), Some(LogLevel::Warn));
    assert_eq!(parse_level("trace"), Some(LogLevel::Trace));
    assert_eq!(parse_level("Off"), Some(LogLevel::Off));
    assert_eq!(parse_level("Info"), Some(LogLevel::Info));
    assert_eq!(parse_level("debug"), Some(LogLevel::Debug));
    assert_eq!(parse_level("error"), Some(LogLevel::Error));
    assert_eq!(parse_level("verbose"), None);
    assert_eq!(parse_level(""), None);
}

#[test]
fn log_sinks() {
    assert_eq!(log_target(Some("-")), LogTarget::Stdout);
    assert_eq!(log_target(Some("stdout")), LogTarget::Stdout);
    assert_eq!(log_target(Some("stderr")), LogTarget::Stderr);
    assert_eq!(log_target(None), LogTarget::Stderr);
    assert_eq!(log_target(Some("run.log")), LogTarget::File("run.log".into()));
    assert_eq!(log_settings(None, None), Some((LogTarget::Stderr, LogLevel::Error)));
    assert_eq!(log_settings(Some("-"), Some("DEBUG")), Some((LogTarget::Stdout, LogLevel::Debug)));
    assert_eq!(log_settings(Some("-"), Some("loud")), None);
}
