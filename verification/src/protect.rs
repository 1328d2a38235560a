//! The protocol for writing to a code page: make it writable, write, then put
//! the previous protection back. A failure to make the page writable is fatal;
//! a failure to restore the protection is only reported. The decisions live
//! here as a state machine; the caller performs each action and reports the
//! outcome as the next event.
use vstd::prelude::*;

verus! {

/// Where a protected write stands.
#[derive(PartialEq, Eq, Structural)]
pub enum LockPhase {
    /// Nothing done yet: the page still has its original protection.
    Ready,
    /// The page is writable; `saved` is the protection it had before.
    Writable { saved: u32 },
    /// The write is done and the saved protection is being put back.
    Restoring,
    /// The protocol ended; the body ran and a restore was attempted.
    Done,
    /// Making the page writable failed; the process is to be terminated.
    Aborted,
}

/// What the caller observed after performing the last action.
#[derive(PartialEq, Eq, Structural)]
pub enum LockEvent {
    /// Making the page writable succeeded; `previous` is the protection the page had.
    ProtectOk { previous: u32 },
    /// Making the page writable failed with the given HRESULT code.
    ProtectFailed { code: i32 },
    /// The body finished writing.
    BodyFinished,
    /// Restoring the saved protection succeeded.
    RestoreOk,
    /// Restoring the saved protection failed with the given HRESULT code.
    RestoreFailed { code: i32 },
}

/// What the caller must do next.
#[derive(PartialEq, Eq, Structural)]
pub enum LockAction {
    /// Make the page readable, writable and executable, and report the previous protection.
    MakeWritable,
    /// Run the body that writes to the page.
    RunBody,
    /// Set the page's protection back to `protection`.
    Restore { protection: u32 },
    /// Report the failure with `code` as fatal and terminate the process.
    Abort { code: i32 },
    /// Report that restoring the protection failed with `code`; the protocol is over.
    Warn { code: i32 },
    /// The protocol is over.
    Finish,
    /// The event does not belong to this phase; nothing to do.
    Ignore,
}

/// The transition function of the protocol.
pub open spec fn lock_step(phase: LockPhase, event: LockEvent) -> (LockPhase, LockAction) {
    match (phase, event) {
        (LockPhase::Ready, LockEvent::ProtectOk { previous }) => (
            LockPhase::Writable { saved: previous },
            LockAction::RunBody,
        ),
        (LockPhase::Ready, LockEvent::ProtectFailed { code }) => (
            LockPhase::Aborted,
            LockAction::Abort { code },
        ),
        (LockPhase::Writable { saved }, LockEvent::BodyFinished) => (
            LockPhase::Restoring,
            LockAction::Restore { protection: saved },
        ),
        (LockPhase::Restoring, LockEvent::RestoreOk) => (LockPhase::Done, LockAction::Finish),
        (LockPhase::Restoring, LockEvent::RestoreFailed { code }) => (
            LockPhase::Done,
            LockAction::Warn { code },
        ),
        (p, _) => (p, LockAction::Ignore),
    }
}

/// The phase reached and the actions emitted, one per event, when `events`
/// are fed to the protocol from its start.
pub open spec fn lock_run(events: Seq<LockEvent>) -> (LockPhase, Seq<LockAction>)
    decreases events.len(),
{
    if events.len() == 0 {
        (LockPhase::Ready, Seq::empty())
    } else {
        let (p, acts) = lock_run(events.drop_last());
        let (q, a) = lock_step(p, events.last());
        (q, acts.push(a))
    }
}

/// The number of `RunBody` actions in `acts`.
pub open spec fn body_runs(acts: Seq<LockAction>) -> nat
    decreases acts.len(),
{
    if acts.len() == 0 {
        0
    } else {
        body_runs(acts.drop_last()) + if acts.last() == LockAction::RunBody {
            1nat
        } else {
            0nat
        }
    }
}

/// Starts the protocol: the page is untouched and must first be made writable.
pub fn write_lock_start() -> (start: (LockPhase, LockAction))
    ensures
        start == (LockPhase::Ready, LockAction::MakeWritable),
{
    (LockPhase::Ready, LockAction::MakeWritable)
}

/// Advances the protocol by one observed event.
pub fn write_lock_step(phase: LockPhase, event: LockEvent) -> (next: (LockPhase, LockAction))
    ensures
        next == lock_step(phase, event),
{
    match phase {
        LockPhase::Ready => match event {
            LockEvent::ProtectOk { previous } => (
                LockPhase::Writable { saved: previous },
                LockAction::RunBody,
            ),
            LockEvent::ProtectFailed { code } => (LockPhase::Aborted, LockAction::Abort { code }),
            _ => (LockPhase::Ready, LockAction::Ignore),
        },
        LockPhase::Writable { saved } => match event {
            LockEvent::BodyFinished => (
                LockPhase::Restoring,
                LockAction::Restore { protection: saved },
            ),
            _ => (LockPhase::Writable { saved }, LockAction::Ignore),
        },
        LockPhase::Restoring => match event {
            LockEvent::RestoreOk => (LockPhase::Done, LockAction::Finish),
            LockEvent::RestoreFailed { code } => (LockPhase::Done, LockAction::Warn { code }),
            _ => (LockPhase::Restoring, LockAction::Ignore),
        },
        LockPhase::Done => (LockPhase::Done, LockAction::Ignore),
        LockPhase::Aborted => (LockPhase::Aborted, LockAction::Ignore),
    }
}

/// What holds after any run: the state is consistent with the history.
spec fn run_invariant(events: Seq<LockEvent>) -> bool {
    let (p, acts) = lock_run(events);
    &&& acts.len() == events.len()
    &&& (p == LockPhase::Ready || p == LockPhase::Aborted) ==> body_runs(acts) == 0
    &&& body_runs(acts) <= 1
    &&& (p is Writable ==> exists|j: int|
        0 <= j < events.len() && events[j] == (LockEvent::ProtectOk { previous: p->saved }))
    &&& forall|i: int|
        #![trigger acts[i]]
        0 <= i < acts.len() && acts[i] is Restore ==> exists|j: int|
            0 <= j < i && events[j] == (LockEvent::ProtectOk { previous: acts[i]->protection })
    &&& forall|i: int|
        #![trigger acts[i]]
        0 <= i < acts.len() && acts[i] == LockAction::RunBody ==> events[i] is ProtectOk
    &&& (p == LockPhase::Aborted <==> exists|i: int|
        0 <= i < acts.len() && #[trigger] acts[i] is Abort)
}

proof fn lemma_run_invariant(events: Seq<LockEvent>)
    ensures
        run_invariant(events),
    decreases events.len(),
{
    if events.len() > 0 {
        let prev = events.drop_last();
        lemma_run_invariant(prev);
        let (p, acts) = lock_run(prev);
        let e = events.last();
        let (q, a) = lock_step(p, e);
        let n = prev.len() as int;
        assert(lock_run(events) == (q, acts.push(a)));
        assert(acts.push(a).drop_last() =~= acts);
        assert forall|j: int| 0 <= j < n implies #[trigger] events[j] == prev[j] by {}
        if p is Writable {
            let j = choose|j: int| 0 <= j < prev.len() && prev[j] == (LockEvent::ProtectOk { previous: p->saved });
            assert(events[j] == prev[j]);
        }
        if q is Writable {
            assert(events[n] == e);
        }
        assert forall|i: int|
            #![trigger acts.push(a)[i]]
            0 <= i < acts.push(a).len() && acts.push(a)[i] is Restore implies exists|j: int|
                0 <= j < i && events[j] == (LockEvent::ProtectOk {
                    previous: acts.push(a)[i]->protection,
                }) by {
            if i < n {
                assert(acts.push(a)[i] == acts[i]);
                let j = choose|j: int| 0 <= j < i && prev[j] == (LockEvent::ProtectOk { previous: acts[i]->protection });
                assert(events[j] == prev[j]);
            } else {
                let j = choose|j: int| 0 <= j < prev.len() && prev[j] == (LockEvent::ProtectOk { previous: p->saved });
                assert(events[j] == prev[j]);
            }
        }
        assert forall|i: int|
            #![trigger acts.push(a)[i]]
            0 <= i < acts.push(a).len() && acts.push(a)[i] == LockAction::RunBody implies events[i] is ProtectOk by {
            if i < n {
                assert(acts.push(a)[i] == acts[i]);
                assert(events[i] == prev[i]);
            } else {
                assert(events[i] == e);
            }
        }
        if p == LockPhase::Aborted {
            let i = choose|i: int| 0 <= i < acts.len() && #[trigger] acts[i] is Abort;
            assert(acts.push(a)[i] == acts[i]);
        }
        if q == LockPhase::Aborted && p != LockPhase::Aborted {
            assert(acts.push(a)[n] == a);
        }
        if exists|i: int| 0 <= i < acts.push(a).len() && #[trigger] acts.push(a)[i] is Abort {
            let i = choose|i: int| 0 <= i < acts.push(a).len() && #[trigger] acts.push(a)[i] is Abort;
            if i < n {
                assert(acts.push(a)[i] == acts[i]);
            }
        }
    }
}

/// Across any sequence of events fed from the start: the protection put back
/// is one that a successful attempt to make the page writable reported
/// earlier; the body runs at most once; and if making the page writable
/// failed, or was never reported, the body never ran.
pub proof fn lemma_write_lock_restores_saved_protection(events: Seq<LockEvent>)
    ensures
        ({
            let (p, acts) = lock_run(events);
            &&& acts.len() == events.len()
            &&& body_runs(acts) <= 1
            &&& (p == LockPhase::Ready || p == LockPhase::Aborted) ==> body_runs(acts) == 0
            &&& forall|i: int|
                #![trigger acts[i]]
                0 <= i < acts.len() && acts[i] is Restore ==> exists|j: int|
                    0 <= j < i && events[j] == (LockEvent::ProtectOk {
                        previous: acts[i]->protection,
                    })
        }),
{
    lemma_run_invariant(events);
}

/// A failed attempt to make the page writable ends the protocol for good:
/// fed first, `ProtectFailed { code }` is answered with `Abort { code }` and
/// the phase `Aborted`, and every later event is ignored, so the body never
/// runs. In any run, the body is only ever run in answer to a successful
/// `ProtectOk`, and once an `Abort` has been emitted the run stays aborted
/// and has not run the body.
pub proof fn lemma_write_lock_failure_aborts(events: Seq<LockEvent>)
    ensures
        ({
            let (p, acts) = lock_run(events);
            &&& forall|i: int|
                #![trigger acts[i]]
                0 <= i < acts.len() && acts[i] == LockAction::RunBody ==> events[i] is ProtectOk
            &&& (exists|i: int| 0 <= i < acts.len() && #[trigger] acts[i] is Abort) ==> (p
                == LockPhase::Aborted && body_runs(acts) == 0)
            &&& (events.len() > 0 && events[0] is ProtectFailed) ==> {
                &&& p == LockPhase::Aborted
                &&& acts[0] == (LockAction::Abort { code: events[0]->ProtectFailed_code })
                &&& body_runs(acts) == 0
                &&& forall|i: int| 1 <= i < acts.len() ==> #[trigger] acts[i] == LockAction::Ignore
            }
        }),
    decreases events.len(),
{
    lemma_run_invariant(events);
    if events.len() > 0 && events[0] is ProtectFailed {
        let prev = events.drop_last();
        let (p, acts) = lock_run(prev);
        assert(lock_run(events).1 == acts.push(lock_step(p, events.last()).1));
        if prev.len() == 0 {
            assert(p == LockPhase::Ready);
            assert(events.last() == events[0]);
        } else {
            assert(prev[0] == events[0]);
            lemma_write_lock_failure_aborts(prev);
            assert forall|i: int| 1 <= i < lock_run(events).1.len() implies #[trigger] lock_run(
                events,
            ).1[i] == LockAction::Ignore by {
                if i < prev.len() {
                    assert(lock_run(events).1[i] == acts[i]);
                }
            }
            assert(lock_run(events).1[0] == acts[0]);
        }
    }
}

} // verus!
