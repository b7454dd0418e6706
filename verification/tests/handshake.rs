use chip_8_emulator::emulator::{next_rand, Feedback, State, WorkerAction};

#[test]
fn the_handshake_starts_ready() {
    assert_eq!(State::default(), State::Ready);
}

#[test]
fn a_request_is_issued_unless_the_worker_waits_for_a_key() {
    let mut state = State::Ready;
    assert!(state.request_update());
    assert_eq!(state, State::UpdateRequested);

    let mut state = State::UpdateRequested;
    assert!(state.request_update());
    assert_eq!(state, State::UpdateRequested);

    let mut state = State::WaitingForKey;
    assert!(!state.request_update());
    assert_eq!(state, State::WaitingForKey);
}

#[test]
fn feedback_tells_the_three_states_apart() {
    assert_eq!(State::UpdateRequested.feedback(), Feedback::Pending);
    assert_eq!(State::Ready.feedback(), Feedback::Completed);
    assert_eq!(State::WaitingForKey.feedback(), Feedback::Suspended);
}

#[test]
fn the_worker_acts_on_what_it_observes() {
    assert_eq!(State::UpdateRequested.worker_action(), WorkerAction::Execute);
    assert_eq!(State::Ready.worker_action(), WorkerAction::Wait);
    assert_eq!(State::WaitingForKey.worker_action(), WorkerAction::Yield);
}

#[test]
fn the_worker_sets_the_state_it_reports() {
    let mut state = State::UpdateRequested;
    state.enter_key_wait();
    assert_eq!(state, State::WaitingForKey);
    state.complete_instruction();
    assert_eq!(state, State::Ready);

    let mut state = State::UpdateRequested;
    state.complete_instruction();
    assert_eq!(state, State::Ready);
}

#[test]
fn a_key_wait_that_begins_on_ready_is_seen_by_the_next_request() {
    let mut state = State::Ready;
    state.enter_key_wait();
    assert!(!state.request_update());
    assert_eq!(state, State::WaitingForKey);
    assert_eq!(state.feedback(), Feedback::Suspended);
}

fn is_valid_transition(from: State, to: State) -> bool {
    matches!(
        (from, to),
        (State::Ready, State::UpdateRequested)
            | (State::UpdateRequested, State::Ready)
            | (State::UpdateRequested, State::WaitingForKey)
            | (State::WaitingForKey, State::Ready)
    )
}

#[test]
fn a_run_of_the_protocol_stays_on_the_transition_table() {
    // Every third instruction waits for a key; the presentation thread runs
    // ticks of ten slots each.
    let mut state = State::default();
    let mut trace = vec![state];
    let mut executed = 0u32;
    let mut in_key_wait = false;
    for _tick in 0..8 {
        if in_key_wait {
            // the presentation thread finds the worker blocked
            assert!(!state.request_update());
            trace.push(state);
            // the key arrives; the instruction completes
            state.complete_instruction();
            trace.push(state);
            in_key_wait = false;
            continue;
        }
        for _slot in 0..10 {
            if !state.request_update() {
                break;
            }
            trace.push(state);
            assert_eq!(state.worker_action(), WorkerAction::Execute);
            executed += 1;
            if executed % 3 == 0 {
                state.enter_key_wait();
                in_key_wait = true;
            } else {
                state.complete_instruction();
            }
            trace.push(state);
            match state.feedback() {
                Feedback::Completed => {}
                Feedback::Suspended => break,
                Feedback::Pending => panic!("the worker answered, so nothing is pending"),
            }
        }
    }
    assert!(executed > 3);
    for pair in trace.windows(2) {
        assert!(pair[0] == pair[1] || is_valid_transition(pair[0], pair[1]));
        assert!(!(pair[0] == State::Ready && pair[1] == State::WaitingForKey));
    }
}

#[test]
fn random_bytes_vary() {
    let first = next_rand();
    let mut differs = false;
    for _ in 0..1000 {
        if next_rand() != first {
            differs = true;
        }
    }
    assert!(differs);
}
