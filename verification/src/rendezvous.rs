//! A model of the execution handshake as the two threads run it, and what
//! holds of every state that the threads can reach.
//!
//! The presentation thread and the CPU worker share one [`State`]. Each
//! thread also has a place in its own loop, which the running program keeps
//! in its control flow and which the model writes down as a phase. A step of
//! the model is one visit of one thread to the shared state, made with the
//! transition that the thread calls at that place.

use crate::emulator::{feedback, request_update, worker_action, Feedback, State, WorkerAction};
use vstd::prelude::*;

verus! {

/// Where the presentation thread is in its batch.
pub enum PacerPhase {
    /// Between instruction slots: it may ask for an update.
    Idle,
    /// It has asked and waits for the answer.
    Awaiting,
}

/// Where the CPU worker is in its loop.
pub enum WorkerPhase {
    /// It waits for a request.
    Idle,
    /// It executes an instruction.
    Executing,
    /// The instruction it executes is blocked on a key.
    InKeyWait,
}

/// The shared state, the phases of the two threads, and how many requests
/// were issued, how many instructions were started and how many completed.
pub struct Handshake {
    pub state: State,
    pub pacer: PacerPhase,
    pub worker: WorkerPhase,
    pub requested: nat,
    pub started: nat,
    pub completed: nat,
}

/// One visit of one thread to the shared state.
pub enum Step {
    /// Presentation thread, between slots: asks for an update.
    Request,
    /// Presentation thread, after asking: looks for the answer.
    Observe,
    /// Worker, waiting: looks for a request.
    Poll,
    /// Worker, executing: the instruction begins to wait for a key.
    EnterKeyWait,
    /// Worker, in a key wait: the key has arrived and the instruction goes on.
    KeyTaken,
    /// Worker, executing: the instruction is complete.
    Complete,
}

/// The handshake at startup.
pub open spec fn initial() -> Handshake {
    Handshake {
        state: State::Ready,
        pacer: PacerPhase::Idle,
        worker: WorkerPhase::Idle,
        requested: 0,
        started: 0,
        completed: 0,
    }
}

/// Whether `step` belongs to the presentation thread.
pub open spec fn by_pacer(step: Step) -> bool {
    step is Request || step is Observe
}

/// Whether the thread that makes `step` is at the place where it makes it.
pub open spec fn enabled(h: Handshake, step: Step) -> bool {
    match step {
        Step::Request => h.pacer is Idle,
        Step::Observe => h.pacer is Awaiting,
        Step::Poll => h.worker is Idle,
        Step::EnterKeyWait => h.worker is Executing,
        Step::KeyTaken => h.worker is InKeyWait,
        Step::Complete => h.worker is Executing,
    }
}

/// The handshake after `step`. A step that is not enabled changes nothing.
pub open spec fn next(h: Handshake, step: Step) -> Handshake {
    if !enabled(h, step) {
        h
    } else {
        match step {
            Step::Request => {
                let (state, issued) = request_update(h.state);
                if issued {
                    Handshake {
                        state,
                        pacer: PacerPhase::Awaiting,
                        requested: h.requested + 1,
                        ..h
                    }
                } else {
                    h
                }
            },
            Step::Observe => match feedback(h.state) {
                Feedback::Pending => h,
                _ => Handshake { pacer: PacerPhase::Idle, ..h },
            },
            Step::Poll => match worker_action(h.state) {
                WorkerAction::Execute => Handshake {
                    worker: WorkerPhase::Executing,
                    started: h.started + 1,
                    ..h
                },
                _ => h,
            },
            Step::EnterKeyWait => Handshake {
                state: State::WaitingForKey,
                worker: WorkerPhase::InKeyWait,
                ..h
            },
            Step::KeyTaken => Handshake { worker: WorkerPhase::Executing, ..h },
            Step::Complete => Handshake {
                state: State::Ready,
                worker: WorkerPhase::Idle,
                completed: h.completed + 1,
                ..h
            },
        }
    }
}

/// The handshake after the steps of `steps`, taken in order from startup.
pub open spec fn after(steps: Seq<Step>) -> Handshake
    decreases steps.len(),
{
    if steps.len() == 0 {
        initial()
    } else {
        next(after(steps.drop_last()), steps.last())
    }
}

/// The changes of the shared state that the protocol allows.
pub open spec fn valid_transition(from: State, to: State) -> bool {
    ||| from is Ready && to is UpdateRequested
    ||| from is UpdateRequested && to is Ready
    ||| from is UpdateRequested && to is WaitingForKey
    ||| from is WaitingForKey && to is Ready
}

/// What holds of the handshake whenever a thread visits it.
pub open spec fn consistent(h: Handshake) -> bool {
    &&& h.pacer is Idle ==> !(h.state is UpdateRequested)
    &&& h.worker is Idle ==> !(h.state is WaitingForKey)
    &&& h.worker is Executing ==> !(h.state is Ready)
    &&& h.worker is InKeyWait ==> h.state is WaitingForKey
    &&& h.worker is Idle <==> h.started == h.completed
    &&& h.completed <= h.started <= h.completed + 1
    &&& (h.state is UpdateRequested && h.worker is Idle) <==> h.requested == h.started + 1
    &&& h.started <= h.requested <= h.started + 1
}

/// Every state that the threads reach is consistent.
pub proof fn lemma_reachable_is_consistent(steps: Seq<Step>)
    ensures
        consistent(after(steps)),
    decreases steps.len(),
{
    if steps.len() > 0 {
        lemma_reachable_is_consistent(steps.drop_last());
    }
}

/// Whatever the threads have done, the next step leaves the shared state as
/// it is or changes it along the table of valid transitions. In particular
/// the state never goes from `Ready` to `WaitingForKey`: it passes through
/// `UpdateRequested` first.
pub proof fn lemma_transitions_are_valid(steps: Seq<Step>, step: Step)
    ensures
        after(steps.push(step)) == next(after(steps), step),
        after(steps.push(step)).state == after(steps).state || valid_transition(
            after(steps).state,
            after(steps.push(step)).state,
        ),
        !((after(steps).state is Ready) && (after(steps.push(step)).state is WaitingForKey)),
{
    lemma_reachable_is_consistent(steps);
    assert(steps.push(step).drop_last() =~= steps);
}

/// Only the presentation thread moves the state from `Ready` to
/// `UpdateRequested`, and it makes no other change; only the worker moves
/// it on from `UpdateRequested` or from `WaitingForKey`.
pub proof fn lemma_each_thread_moves_its_own(steps: Seq<Step>, step: Step)
    ensures
        by_pacer(step) ==> after(steps.push(step)).state == after(steps).state || ((after(
            steps,
        ).state is Ready) && (after(steps.push(step)).state is UpdateRequested)),
        !by_pacer(step) ==> after(steps.push(step)).state == after(steps).state || !(after(
            steps,
        ).state is Ready),
{
    lemma_transitions_are_valid(steps, step);
}

/// No instruction starts without a request that it answers, and no request
/// is issued while an earlier one is outstanding: a request is issued only
/// when every instruction that was requested has completed.
pub proof fn lemma_requests_and_instructions_alternate(steps: Seq<Step>, step: Step)
    ensures
        after(steps).completed <= after(steps).started <= after(steps).requested,
        after(steps).requested <= after(steps).completed + 1,
        after(steps.push(step)).started > after(steps).started ==> (after(steps).state
            is UpdateRequested) && after(steps).requested == after(steps).started + 1,
        after(steps.push(step)).requested > after(steps).requested ==> (after(steps).state
            is Ready) && after(steps).requested == after(steps).completed,
{
    lemma_reachable_is_consistent(steps);
    assert(steps.push(step).drop_last() =~= steps);
}

/// While the worker waits for a key the presentation thread issues no
/// request and does not block: asking leaves everything as it is.
pub proof fn lemma_no_request_during_key_wait(steps: Seq<Step>)
    requires
        after(steps).state is WaitingForKey,
    ensures
        after(steps).pacer is Idle ==> after(steps.push(Step::Request)) == after(steps),
        after(steps).pacer is Awaiting ==> after(steps.push(Step::Observe)).pacer is Idle,
{
    assert(steps.push(Step::Request).drop_last() =~= steps);
    assert(steps.push(Step::Observe).drop_last() =~= steps);
}

} // verus!
