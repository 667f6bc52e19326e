use std::cell::RefCell;
use std::io;

use carnet::runtime::queue::{JobQueue, QueueStep, QueuedJob};
use carnet::runtime::{
    enable_keyboard_enhancement, restore_terminal_modes, KeyboardEnhancementState, KeyboardFlag, RestorationGuard,
    RuntimeDriverError, TerminalLifecycle,
};

#[test]
fn keyboard_enhancement_falls_back_on_false_or_probe_error() {
    assert!(KeyboardEnhancementState::requested_flags(Ok::<bool, io::Error>(false)).is_none());
    assert!(KeyboardEnhancementState::requested_flags(Err::<bool, io::Error>(io::Error::other("probe"))).is_none());
}

#[test]
fn keyboard_enhancement_uses_all_flags_and_pops_once() {
    let flags = KeyboardEnhancementState::requested_flags(Ok::<bool, io::Error>(true)).unwrap();
    assert!(flags.contains(KeyboardFlag::DisambiguateEscapeCodes));
    assert!(flags.contains(KeyboardFlag::ReportAllKeysAsEscapeCodes));
    assert!(flags.contains(KeyboardFlag::ReportAlternateKeys));
    assert!(flags.contains(KeyboardFlag::ReportEventTypes));

    let mut state = KeyboardEnhancementState::default();
    state.mark_pushed();
    assert!(state.take_pop());
    assert!(!state.take_pop());
}

#[test]
fn keyboard_enablement_owns_only_a_successful_push() {
    let mut state = KeyboardEnhancementState::default();
    let mut pushed = None;
    enable_keyboard_enhancement(&mut state, Ok(true), |flags| {
        pushed = Some(flags);
        Ok::<(), io::Error>(())
    })
    .unwrap();
    assert!(pushed.is_some());
    assert!(state.take_pop());

    for probe in [Ok(false), Err(io::Error::other("probe"))] {
        let mut state = KeyboardEnhancementState::default();
        enable_keyboard_enhancement(&mut state, probe, |_| -> io::Result<()> {
            panic!("fallback must not push keyboard flags")
        })
        .unwrap();
        assert!(!state.take_pop());
    }

    let mut state = KeyboardEnhancementState::default();
    let error = enable_keyboard_enhancement(&mut state, Ok(true), |_| Err(io::Error::other("push"))).unwrap_err();
    assert_eq!(error.to_string(), "push");
    assert!(!state.take_pop());
}

#[test]
fn keyboard_pop_failure_does_not_skip_remaining_terminal_cleanup() {
    let mut state = KeyboardEnhancementState::default();
    state.mark_pushed();
    let calls = RefCell::new(Vec::new());
    let error = restore_terminal_modes(
        &mut state,
        || {
            calls.borrow_mut().push("pop");
            Err(io::Error::other("pop"))
        },
        || {
            calls.borrow_mut().push("screen");
            Ok(())
        },
        || {
            calls.borrow_mut().push("raw");
            Ok(())
        },
    )
    .unwrap_err();

    assert_eq!(error.to_string(), "pop");
    assert_eq!(*calls.borrow(), ["pop", "screen", "raw"]);
    restore_terminal_modes(
        &mut state,
        || -> io::Result<()> { panic!("keyboard flags must pop only once") },
        || Ok(()),
        || Ok(()),
    )
    .unwrap();
}

#[test]
fn restoring_reports_the_screen_failure_when_the_pop_succeeded() {
    let mut state = KeyboardEnhancementState::new();
    state.mark_pushed();
    let error = restore_terminal_modes(
        &mut state,
        || Ok(()),
        || Err(io::Error::other("screen")),
        || Err(io::Error::other("raw")),
    )
    .unwrap_err();
    assert_eq!(error.to_string(), "screen");
    assert!(!state.take_pop());
}

struct FakeTerminal {
    log: std::rc::Rc<RefCell<Vec<&'static str>>>,
    fail_enter: bool,
}

impl TerminalLifecycle for FakeTerminal {
    fn enter(&mut self) -> io::Result<()> {
        self.log.borrow_mut().push("enter");
        if self.fail_enter {
            Err(io::Error::other("enter"))
        } else {
            Ok(())
        }
    }

    fn restore(&mut self) -> io::Result<()> {
        self.log.borrow_mut().push("restore");
        Ok(())
    }
}

#[derive(Debug)]
struct FakeLifecycle {
    calls: std::sync::Arc<std::sync::Mutex<Vec<&'static str>>>,
    enter_fails: bool,
}

impl TerminalLifecycle for FakeLifecycle {
    fn enter(&mut self) -> io::Result<()> {
        self.calls.lock().unwrap().push("enter");
        if self.enter_fails {
            Err(io::Error::other("enter failed"))
        } else {
            Ok(())
        }
    }

    fn restore(&mut self) -> io::Result<()> {
        self.calls.lock().unwrap().push("restore");
        Ok(())
    }
}

#[test]
fn restoration_guard_attempts_cleanup_when_enter_fails_partway() {
    let calls = std::sync::Arc::new(std::sync::Mutex::new(Vec::new()));
    let error = match RestorationGuard::enter(FakeLifecycle { calls: std::sync::Arc::clone(&calls), enter_fails: true }) {
        Ok(_) => panic!("entering must fail"),
        Err(error) => error,
    };

    assert_eq!(error.kind(), io::ErrorKind::Other);
    assert_eq!(*calls.lock().unwrap(), ["enter", "restore"]);
}

#[test]
fn a_failed_enter_restores_at_once_and_returns_the_error() {
    let log = std::rc::Rc::new(RefCell::new(Vec::new()));
    let result = RestorationGuard::enter(FakeTerminal { log: log.clone(), fail_enter: true });
    let error = match result {
        Ok(_) => panic!("entering must fail"),
        Err(error) => error,
    };
    assert_eq!(error.to_string(), "enter");
    assert_eq!(*log.borrow(), ["enter", "restore"]);
}

#[test]
fn an_entered_terminal_is_restored_once() {
    let log = std::rc::Rc::new(RefCell::new(Vec::new()));
    let guard = match RestorationGuard::enter(FakeTerminal { log: log.clone(), fail_enter: false }) {
        Ok(guard) => guard,
        Err(error) => panic!("entering failed: {error}"),
    };
    assert_eq!(*log.borrow(), ["enter"]);
    guard.restore().unwrap();
    assert_eq!(*log.borrow(), ["enter", "restore"]);
}

#[test]
fn driver_errors_say_what_stopped_the_wait() {
    assert_eq!(RuntimeDriverError::BackgroundTimeout.message(), "timed out waiting for background work");
    assert_eq!(
        RuntimeDriverError::CompletionChannelClosed.message(),
        "the supervised worker completion channel closed"
    );
}

fn read(id: u64, root: &str) -> QueuedJob {
    QueuedJob { id, root: Some(root.to_owned()), coalescible: true }
}

fn write(id: u64, root: &str) -> QueuedJob {
    QueuedJob { id, root: Some(root.to_owned()), coalescible: false }
}

fn run(step: QueueStep) -> (u64, String) {
    match step {
        QueueStep::Run { job, root } => (job.id, root),
        other => panic!("expected a job to run, got {other:?}"),
    }
}

#[test]
fn a_newer_read_of_a_root_replaces_the_waiting_ones() {
    let mut queue = JobQueue::new();
    assert!(queue.enqueue(read(1, "/a")).is_empty());
    assert!(queue.enqueue(write(2, "/a")).is_empty());
    assert!(queue.enqueue(read(3, "/b")).is_empty());
    assert_eq!(queue.enqueue(read(4, "/a")), vec![1]);
    assert_eq!(run(queue.take()), (2, "/a".to_owned()));
    assert_eq!(run(queue.take()), (3, "/b".to_owned()));
    assert!(matches!(queue.take(), QueueStep::Wait));
    queue.finish("/a");
    assert_eq!(run(queue.take()), (4, "/a".to_owned()));
}

#[test]
fn writes_are_never_made_moot() {
    let mut queue = JobQueue::new();
    queue.enqueue(write(1, "/a"));
    queue.enqueue(write(2, "/a"));
    assert!(queue.enqueue(write(3, "/a")).is_empty());
    assert_eq!(run(queue.take()), (1, "/a".to_owned()));
    queue.finish("/a");
    assert_eq!(run(queue.take()), (2, "/a".to_owned()));
    queue.finish("/a");
    assert_eq!(run(queue.take()), (3, "/a".to_owned()));
}

#[test]
fn a_closed_queue_still_runs_what_can_run_then_stops() {
    let mut queue = JobQueue::new();
    queue.enqueue(write(1, "/a"));
    queue.enqueue(write(2, "/a"));
    queue.close();
    assert!(queue.is_closed());
    assert_eq!(run(queue.take()), (1, "/a".to_owned()));
    assert!(matches!(queue.take(), QueueStep::Closed));
    queue.finish("/a");
    assert_eq!(run(queue.take()), (2, "/a".to_owned()));
    queue.finish("/a");
    assert!(matches!(queue.take(), QueueStep::Closed));
}

#[test]
fn a_job_without_a_root_waits() {
    let mut queue = JobQueue::new();
    queue.enqueue(QueuedJob { id: 7, root: None, coalescible: false });
    assert!(matches!(queue.take(), QueueStep::Wait));
}

#[test]
fn entering_gives_a_guard_or_the_terminal_back_with_the_error() {
    let calls = std::sync::Arc::new(std::sync::Mutex::new(Vec::new()));
    let lifecycle = FakeLifecycle { calls: std::sync::Arc::clone(&calls), enter_fails: false };
    match RestorationGuard::after_enter(lifecycle, Ok(())) {
        Ok(guard) => guard.restore().unwrap(),
        Err(_) => panic!("entering succeeded"),
    }
    assert_eq!(*calls.lock().unwrap(), ["restore"]);

    let lifecycle = FakeLifecycle { calls: std::sync::Arc::clone(&calls), enter_fails: true };
    match RestorationGuard::after_enter(lifecycle, Err(io::Error::other("no tty"))) {
        Ok(_) => panic!("entering failed"),
        Err((back, error)) => {
            assert!(back.enter_fails);
            assert_eq!(error.to_string(), "no tty");
        }
    }
    assert_eq!(*calls.lock().unwrap(), ["restore"]);
}
