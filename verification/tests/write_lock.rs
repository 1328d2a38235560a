use boopass::protect::{write_lock_start, write_lock_step, LockAction, LockEvent, LockPhase};

fn run(events: Vec<LockEvent>) -> (LockPhase, Vec<LockAction>) {
    let (mut phase, _) = write_lock_start();
    let mut acts = Vec::new();
    for e in events {
        let (p, a) = write_lock_step(phase, e);
        phase = p;
        acts.push(a);
    }
    (phase, acts)
}

fn is_run_body(a: &LockAction) -> bool {
    matches!(a, LockAction::RunBody)
}

#[test]
fn starts_by_making_writable() {
    let (phase, action) = write_lock_start();
    assert!(matches!(phase, LockPhase::Ready));
    assert!(matches!(action, LockAction::MakeWritable));
}

#[test]
fn successful_write_restores_saved_protection() {
    let (phase, acts) = run(vec![
        LockEvent::ProtectOk { previous: 0x20 },
        LockEvent::BodyFinished,
        LockEvent::RestoreOk,
    ]);
    assert!(matches!(phase, LockPhase::Done));
    assert!(matches!(acts[0], LockAction::RunBody));
    assert!(matches!(acts[1], LockAction::Restore { protection: 0x20 }));
    assert!(matches!(acts[2], LockAction::Finish));
}

#[test]
fn failed_protect_aborts_without_body() {
    let code = 0x8007_0005u32 as i32;
    let (phase, acts) = run(vec![LockEvent::ProtectFailed { code }, LockEvent::BodyFinished]);
    assert!(matches!(phase, LockPhase::Aborted));
    assert!(matches!(acts[0], LockAction::Abort { code: c } if c == code));
    assert!(matches!(acts[1], LockAction::Ignore));
    assert!(!acts.iter().any(is_run_body));
}

#[test]
fn failed_restore_only_warns() {
    let code = 0x8007_0057u32 as i32;
    let (phase, acts) = run(vec![
        LockEvent::ProtectOk { previous: 0x40 },
        LockEvent::BodyFinished,
        LockEvent::RestoreFailed { code },
    ]);
    assert!(matches!(phase, LockPhase::Done));
    assert!(matches!(acts[1], LockAction::Restore { protection: 0x40 }));
    assert!(matches!(acts[2], LockAction::Warn { code: c } if c == code));
}

#[test]
fn body_runs_once_and_stray_events_are_ignored() {
    let (phase, acts) = run(vec![
        LockEvent::BodyFinished,
        LockEvent::ProtectOk { previous: 0x02 },
        LockEvent::ProtectOk { previous: 0x04 },
        LockEvent::RestoreOk,
        LockEvent::BodyFinished,
        LockEvent::BodyFinished,
        LockEvent::RestoreOk,
        LockEvent::RestoreOk,
    ]);
    assert!(matches!(phase, LockPhase::Done));
    assert!(matches!(acts[0], LockAction::Ignore));
    assert!(matches!(acts[1], LockAction::RunBody));
    assert!(matches!(acts[2], LockAction::Ignore));
    assert!(matches!(acts[3], LockAction::Ignore));
    assert!(matches!(acts[4], LockAction::Restore { protection: 0x02 }));
    assert!(matches!(acts[5], LockAction::Ignore));
    assert!(matches!(acts[6], LockAction::Finish));
    assert!(matches!(acts[7], LockAction::Ignore));
    assert_eq!(acts.iter().filter(|a| is_run_body(a)).count(), 1);
}
