//! Tick pacing and the execution handshake.

use crate::keyboard::{
    handle_messages, idle_keypad, is_last_for, lemma_last_for_exists, lemma_last_message_wins,
    no_repeated_press, on_keypad, pressed_again, released_between, tracker, KeyAction,
    KeyMessage, KeyValue, KeyboardState, KEY_COUNT,
};
use crate::ProgramOptions;
use vstd::prelude::*;

verus! {

/// Emulated clock rate, in Hz, used when none is configured.
pub const DEFAULT_CLOCK_SPEED: u16 = 500;

/// Nanoseconds in one second.
pub const NANOS_PER_SECOND: u64 = 1_000_000_000;

/// Instructions executed per pacing tick. Batching instructions reduces
/// jitter; the batch is small enough to keep input lag in the 10-25 ms range
/// for clock rates between 400 and 1000 Hz.
pub const INSTRUCTIONS_PER_TICK: u64 = 10;

/// A tick sleeps only when it is ahead of its budget by more than one part in
/// `ACCURACY_FACTOR` of that budget.
pub const ACCURACY_FACTOR: u64 = 10;

/// Mathematical content of [`EmulationSpeedParams`].
pub struct SpeedParams {
    pub instructions_per_tick: nat,
    pub time_budget_ns: nat,
    pub target_accuracy_ns: nat,
}

/// The pacing parameters that a clock rate of `clock_hz` Hz determines.
pub open spec fn speed_params(clock_hz: nat) -> SpeedParams
    recommends
        clock_hz > 0,
{
    let period_ns = NANOS_PER_SECOND as nat / clock_hz;
    SpeedParams {
        instructions_per_tick: INSTRUCTIONS_PER_TICK as nat,
        time_budget_ns: INSTRUCTIONS_PER_TICK as nat * period_ns,
        target_accuracy_ns: INSTRUCTIONS_PER_TICK as nat * period_ns / ACCURACY_FACTOR as nat,
    }
}

/// How long a tick that has already used `elapsed_ns` of its budget sleeps:
/// the rest of the budget when that rest exceeds the accuracy threshold,
/// nothing otherwise.
pub open spec fn sleep_time(params: SpeedParams, elapsed_ns: nat) -> Option<nat> {
    if params.time_budget_ns - elapsed_ns > params.target_accuracy_ns {
        Some((params.time_budget_ns - elapsed_ns) as nat)
    } else {
        None
    }
}

/// Pacing parameters derived once from the configured clock rate.
#[derive(Clone, Copy, Debug)]
pub struct EmulationSpeedParams {
    instructions_per_tick: u64,
    time_budget_ns: u64,
    target_accuracy_ns: u64,
}

impl View for EmulationSpeedParams {
    type V = SpeedParams;

    closed spec fn view(&self) -> SpeedParams {
        SpeedParams {
            instructions_per_tick: self.instructions_per_tick as nat,
            time_budget_ns: self.time_budget_ns as nat,
            target_accuracy_ns: self.target_accuracy_ns as nat,
        }
    }
}

impl EmulationSpeedParams {
    /// Derives the parameters for an emulated clock of `clock_speed` Hz.
    pub fn new(clock_speed: u16) -> (params: Self)
        requires
            clock_speed > 0,
        ensures
            params@ == speed_params(clock_speed as nat),
            params@.instructions_per_tick * (NANOS_PER_SECOND as nat / clock_speed as nat)
                == params@.time_budget_ns,
    {
        let target_clock_ns: u64 = NANOS_PER_SECOND / (clock_speed as u64);
        let instructions_per_tick: u64 = INSTRUCTIONS_PER_TICK;
        let time_budget_ns: u64 = target_clock_ns * instructions_per_tick;
        let target_accuracy_ns: u64 = instructions_per_tick * target_clock_ns / ACCURACY_FACTOR;
        Self { instructions_per_tick, time_budget_ns, target_accuracy_ns }
    }

    /// Number of instruction slots in one tick.
    pub fn instructions_per_tick(&self) -> (n: u64)
        ensures
            n == self@.instructions_per_tick,
    {
        self.instructions_per_tick
    }

    /// Time one tick is allotted, in nanoseconds.
    pub fn time_budget_ns(&self) -> (ns: u64)
        ensures
            ns == self@.time_budget_ns,
    {
        self.time_budget_ns
    }

    /// Threshold, in nanoseconds, below which a tick does not sleep.
    pub fn target_accuracy_ns(&self) -> (ns: u64)
        ensures
            ns == self@.target_accuracy_ns,
    {
        self.target_accuracy_ns
    }

    /// Decides the sleep of a tick that began `elapsed_ns` after the previous
    /// one: `Some(ns)` to sleep `ns` nanoseconds, `None` to skip sleeping.
    pub fn sleep_time(&self, elapsed_ns: u64) -> (pause: Option<u64>)
        ensures
            match sleep_time(self@, elapsed_ns as nat) {
                Some(ns) => pause == Some(ns as u64),
                None => pause.is_none(),
            },
    {
        if elapsed_ns < self.time_budget_ns && self.time_budget_ns - elapsed_ns
            > self.target_accuracy_ns {
            Some(self.time_budget_ns - elapsed_ns)
        } else {
            None
        }
    }
}

/// State of the handshake between the presentation thread and the CPU
/// worker. The presentation thread moves `Ready` to `UpdateRequested`; the
/// worker moves `UpdateRequested` to `Ready` or to `WaitingForKey`, and
/// `WaitingForKey` back to `Ready` once the key wait has resolved.
#[derive(Clone, Copy, Debug, PartialEq, Eq, Structural)]
pub enum State {
    Ready,
    UpdateRequested,
    WaitingForKey,
}

/// What the presentation thread finds when it looks for the answer to its
/// request.
#[derive(Clone, Copy, Debug, PartialEq, Eq, Structural)]
pub enum Feedback {
    /// The request is still outstanding: keep waiting.
    Pending,
    /// The worker completed the instruction.
    Completed,
    /// The worker is blocked on a key: stop the batch.
    Suspended,
}

/// What the CPU worker does next, given the handshake state it observes.
#[derive(Clone, Copy, Debug, PartialEq, Eq, Structural)]
pub enum WorkerAction {
    /// A key wait is still in progress: yield and look again.
    Yield,
    /// Nothing is requested: wait on the condition variable.
    Wait,
    /// An update is requested: execute one instruction.
    Execute,
}

/// The state after the presentation thread asks for an update, and whether
/// the request was issued. No request is issued while the worker waits for a
/// key.
pub open spec fn request_update(state: State) -> (State, bool) {
    match state {
        State::WaitingForKey => (State::WaitingForKey, false),
        _ => (State::UpdateRequested, true),
    }
}

/// The answer that a handshake state holds for the presentation thread.
pub open spec fn feedback(state: State) -> Feedback {
    match state {
        State::UpdateRequested => Feedback::Pending,
        State::Ready => Feedback::Completed,
        State::WaitingForKey => Feedback::Suspended,
    }
}

/// The action that a handshake state asks of the worker.
pub open spec fn worker_action(state: State) -> WorkerAction {
    match state {
        State::WaitingForKey => WorkerAction::Yield,
        State::Ready => WorkerAction::Wait,
        State::UpdateRequested => WorkerAction::Execute,
    }
}

impl Default for State {
    fn default() -> (state: Self)
        ensures
            state == State::Ready,
    {
        State::Ready
    }
}

impl State {
    /// Presentation thread: asks the worker for one instruction. Returns
    /// whether the request was issued; when it was, the waiters are to be
    /// woken. When it was not, the batch ends for this tick.
    pub fn request_update(&mut self) -> (issued: bool)
        ensures
            (*final(self), issued) == request_update(*old(self)),
    {
        match *self {
            State::WaitingForKey => false,
            _ => {
                *self = State::UpdateRequested;
                true
            },
        }
    }

    /// Presentation thread: reads the answer to the request.
    pub fn feedback(&self) -> (answer: Feedback)
        ensures
            answer == feedback(*self),
    {
        match *self {
            State::UpdateRequested => Feedback::Pending,
            State::Ready => Feedback::Completed,
            State::WaitingForKey => Feedback::Suspended,
        }
    }

    /// Worker: decides what to do on the state it observes.
    pub fn worker_action(&self) -> (action: WorkerAction)
        ensures
            action == worker_action(*self),
    {
        match *self {
            State::WaitingForKey => WorkerAction::Yield,
            State::Ready => WorkerAction::Wait,
            State::UpdateRequested => WorkerAction::Execute,
        }
    }

    /// Worker: records that the instruction in progress blocks on a key.
    pub fn enter_key_wait(&mut self)
        ensures
            *final(self) == State::WaitingForKey,
    {
        *self = State::WaitingForKey;
    }

    /// Worker: records that the instruction in progress has completed.
    pub fn complete_instruction(&mut self)
        ensures
            *final(self) == State::Ready,
    {
        *self = State::Ready;
    }
}

/// Progress of the presentation thread through the instruction slots of one
/// tick.
#[derive(Clone, Copy, Debug)]
pub struct TickBatch {
    executed: u64,
    limit: u64,
}

impl TickBatch {
    #[verifier::type_invariant]
    spec fn well_formed(&self) -> bool {
        self.executed <= self.limit
    }

    /// Number of instructions completed in this tick so far.
    pub closed spec fn executed(&self) -> nat {
        self.executed as nat
    }

    /// Number of instruction slots of this tick.
    pub closed spec fn limit(&self) -> nat {
        self.limit as nat
    }

    /// The batch of a tick that begins: no instruction completed yet.
    pub fn new(params: &EmulationSpeedParams) -> (batch: Self)
        ensures
            batch.executed() == 0,
            batch.limit() == params@.instructions_per_tick,
    {
        Self { executed: 0, limit: params.instructions_per_tick }
    }

    /// Whether a slot is left, so that another update may be requested.
    pub fn has_slot(&self) -> (open: bool)
        ensures
            open == (self.executed() < self.limit()),
            self.executed() <= self.limit(),
    {
        proof {
            use_type_invariant(self);
        }
        self.executed < self.limit
    }

    /// Number of instructions completed in this tick so far.
    pub fn completed(&self) -> (count: u64)
        ensures
            count == self.executed(),
    {
        self.executed
    }

    /// Takes the answer to the request of the open slot. A completed
    /// instruction is counted and the batch goes on; a worker blocked on a
    /// key is not counted and ends the batch. Returns whether the batch goes
    /// on.
    pub fn record(&mut self, answer: Feedback) -> (go_on: bool)
        requires
            old(self).executed() < old(self).limit(),
            !(answer is Pending),
        ensures
            final(self).limit() == old(self).limit(),
            answer is Completed ==> go_on && final(self).executed() == old(self).executed() + 1,
            answer is Suspended ==> !go_on && final(self).executed() == old(self).executed(),
    {
        match answer {
            Feedback::Completed => {
                self.executed = self.executed + 1;
                true
            },
            _ => false,
        }
    }
}

/// The scancode of the host key that stands for keypad key `key`. The keypad
/// is laid out on the left of a keyboard, four keys to a row:
/// `1 2 3 C` on the digits `1 2 3 4`, `4 5 6 D` on the row below, then
/// `7 8 9 E` and `A 0 B F`.
pub open spec fn scancode_of(key: KeyValue) -> u32 {
    if key == 0x0 {
        0x2D
    } else if key == 0x1 {
        0x02
    } else if key == 0x2 {
        0x03
    } else if key == 0x3 {
        0x04
    } else if key == 0x4 {
        0x10
    } else if key == 0x5 {
        0x11
    } else if key == 0x6 {
        0x12
    } else if key == 0x7 {
        0x1E
    } else if key == 0x8 {
        0x1F
    } else if key == 0x9 {
        0x20
    } else if key == 0xA {
        0x2C
    } else if key == 0xB {
        0x2E
    } else if key == 0xC {
        0x05
    } else if key == 0xD {
        0x13
    } else if key == 0xE {
        0x21
    } else {
        0x2F
    }
}

/// Whether `scancode` stands for keypad key `key`.
pub open spec fn stands_for(scancode: u32, key: KeyValue) -> bool {
    key < KEY_COUNT && scancode_of(key) == scancode
}

/// The keypad key that `scancode` stands for, if it stands for one.
pub open spec fn key_of(scancode: u32) -> Option<KeyValue> {
    if exists|key: KeyValue| stands_for(scancode, key) {
        Some(choose|key: KeyValue| stands_for(scancode, key))
    } else {
        None
    }
}

/// No two keys of the keypad share a scancode, so at most one key answers to
/// a scancode.
pub proof fn lemma_layout_is_one_to_one(first: KeyValue, second: KeyValue)
    requires
        first < KEY_COUNT,
        second < KEY_COUNT,
        scancode_of(first) == scancode_of(second),
    ensures
        first == second,
{
}

/// The keypad key that a host scancode stands for, if any.
pub fn key_for_scancode(scancode: u32) -> (key: Option<KeyValue>)
    ensures
        key == key_of(scancode),
{
    let key: Option<KeyValue> = match scancode {
        0x2D => Some(0x0),
        0x02 => Some(0x1),
        0x03 => Some(0x2),
        0x04 => Some(0x3),
        0x10 => Some(0x4),
        0x11 => Some(0x5),
        0x12 => Some(0x6),
        0x1E => Some(0x7),
        0x1F => Some(0x8),
        0x20 => Some(0x9),
        0x2C => Some(0xA),
        0x2E => Some(0xB),
        0x05 => Some(0xC),
        0x13 => Some(0xD),
        0x21 => Some(0xE),
        0x2F => Some(0xF),
        _ => None,
    };
    proof {
        match key {
            Some(k) => {
                assert(stands_for(scancode, k));
            },
            None => {
                assert forall|k: KeyValue| !stands_for(scancode, k) by {}
            },
        }
    }
    key
}

/// The key status after the host reports a key down, and the message to
/// queue: a key of the keypad that was not held becomes held and is reported
/// as pressed; a key that is already held, or a host key that is not on the
/// keypad, changes nothing and reports nothing.
pub open spec fn key_down(held: Seq<bool>, key: Option<KeyValue>) -> (Seq<bool>, Option<KeyMessage>) {
    match key {
        Some(k) if !held[k as int] => (held.update(k as int, true), Some((k, KeyAction::Pressed))),
        _ => (held, None),
    }
}

/// The key status after the host reports a key up, and the message to queue:
/// a key of the keypad becomes not held and is reported as released; a host
/// key that is not on the keypad changes nothing and reports nothing.
pub open spec fn key_up(held: Seq<bool>, key: Option<KeyValue>) -> (Seq<bool>, Option<KeyMessage>) {
    match key {
        Some(k) => (held.update(k as int, false), Some((k, KeyAction::Released))),
        None => (held, None),
    }
}

/// The presentation side of the emulator: the pacing parameters, and the
/// status of the keypad as the host keyboard reports it, kept so that a held
/// key is reported as pressed once.
#[derive(Clone, Copy, Debug)]
pub struct Emulator {
    keyboard_status: [bool; 16],
    esp: EmulationSpeedParams,
}

impl Emulator {
    /// One flag per keypad key: whether the host has it down.
    pub closed spec fn held(&self) -> Seq<bool> {
        self.keyboard_status@
    }

    /// The pacing parameters in use.
    pub closed spec fn params(&self) -> SpeedParams {
        self.esp@
    }

    /// The emulator for the given options: no key down, paced for the
    /// configured clock rate.
    pub fn new(options: &ProgramOptions) -> (emulator: Self)
        ensures
            emulator.held() == Seq::new(KEY_COUNT as nat, |k: int| false),
            emulator.params() == speed_params(options@.clock_speed as nat),
    {
        let emulator = Emulator {
            keyboard_status: [false;16],
            esp: EmulationSpeedParams::new(options.clock_speed()),
        };
        assert(emulator.held() =~= Seq::new(KEY_COUNT as nat, |k: int| false));
        emulator
    }

    /// The pacing parameters in use.
    pub fn speed_params(&self) -> (params: &EmulationSpeedParams)
        ensures
            params@ == self.params(),
    {
        &self.esp
    }

    /// Whether the host has keypad key `key` down.
    pub fn is_held(&self, key: KeyValue) -> (down: bool)
        requires
            key < KEY_COUNT,
        ensures
            down == self.held()[key as int],
    {
        self.keyboard_status[key as usize]
    }

    /// Decides the sleep of a tick that began `elapsed_ns` after the previous
    /// one, and opens the batch of that tick.
    pub fn update(&self, elapsed_ns: u64) -> (plan: (Option<u64>, TickBatch))
        ensures
            match sleep_time(self.params(), elapsed_ns as nat) {
                Some(ns) => plan.0 == Some(ns as u64),
                None => plan.0.is_none(),
            },
            plan.1.executed() == 0,
            plan.1.limit() == self.params().instructions_per_tick,
    {
        (self.esp.sleep_time(elapsed_ns), TickBatch::new(&self.esp))
    }

    /// The host reports the key with `scancode` down. Returns the message to
    /// queue for the keypad tracker, if there is one.
    pub fn key_down_event(&mut self, scancode: u32) -> (message: Option<KeyMessage>)
        ensures
            final(self).params() == old(self).params(),
            (final(self).held(), message) == key_down(old(self).held(), key_of(scancode)),
    {
        let key = key_for_scancode(scancode);
        match key {
            Some(k) => {
                if !self.keyboard_status[k as usize] {
                    self.keyboard_status[k as usize] = true;
                    Some((k, KeyAction::Pressed))
                } else {
                    None
                }
            },
            None => None,
        }
    }

    /// The host reports the key with `scancode` up. Returns the message to
    /// queue for the keypad tracker, if there is one.
    pub fn key_up_event(&mut self, scancode: u32) -> (message: Option<KeyMessage>)
        ensures
            final(self).params() == old(self).params(),
            (final(self).held(), message) == key_up(old(self).held(), key_of(scancode)),
    {
        let key = key_for_scancode(scancode);
        match key {
            Some(k) => {
                self.keyboard_status[k as usize] = false;
                Some((k, KeyAction::Released))
            },
            None => None,
        }
    }
}

/// Draws a byte with `rand::random`, which takes it from the generator of
/// the calling thread. The byte is random, so nothing is claimed of it.
#[verifier::external_body]
fn random_byte() -> (byte: u8) {
    rand::random::<u8>()
}

/// The random byte that the CPU core asks for. Two calls need not agree.
pub fn next_rand() -> (byte: u8) {
    random_byte()
}

/// What the host keyboard reports: the scancode of a key, and whether the
/// key went down or up.
pub type HostKeyEvent = (u32, bool);

/// The key status after one report of the host keyboard, and the message to
/// queue.
pub open spec fn host_event(held: Seq<bool>, event: HostKeyEvent) -> (Seq<bool>, Option<KeyMessage>) {
    if event.1 {
        key_down(held, key_of(event.0))
    } else {
        key_up(held, key_of(event.0))
    }
}

/// The key status after the reports of `events`, taken in order from a
/// keyboard with no key down, and the messages queued on the way.
pub open spec fn host_events(events: Seq<HostKeyEvent>) -> (Seq<bool>, Seq<KeyMessage>)
    decreases events.len(),
{
    if events.len() == 0 {
        (Seq::new(KEY_COUNT as nat, |k: int| false), Seq::empty())
    } else {
        let (held, queue) = host_events(events.drop_last());
        let (now_held, message) = host_event(held, events.last());
        match message {
            Some(m) => (now_held, queue.push(m)),
            None => (now_held, queue),
        }
    }
}

/// Whatever the host keyboard reports, the keypad tracker that handles the
/// queued messages ends up with the key status that the presentation thread
/// keeps: the two never drift apart.
pub proof fn lemma_tracker_follows_host(events: Seq<HostKeyEvent>, state: KeyboardState)
    ensures
        host_events(events).0.len() == KEY_COUNT,
        on_keypad(host_events(events).1),
        handle_messages(tracker(idle_keypad(), state), host_events(events).1).pad.pressed
            == host_events(events).0,
    decreases events.len(),
{
    let start = tracker(idle_keypad(), state);
    if events.len() > 0 {
        lemma_tracker_follows_host(events.drop_last(), state);
        let (held, queue) = host_events(events.drop_last());
        let (now_held, message) = host_event(held, events.last());
        match message {
            Some(m) => {
                assert(queue.push(m).drop_last() =~= queue);
                assert(queue.push(m).last() == m);
                assert(now_held =~= handle_messages(start, queue.push(m)).pad.pressed);
            },
            None => {
                assert(now_held =~= held);
            },
        }
    } else {
        assert(host_events(events).0 =~= idle_keypad().pressed);
    }
}

/// Whatever the host keyboard reports, and however often it repeats a key
/// that is held down, the queued messages never press a key twice without a
/// release of it in between.
pub proof fn lemma_held_key_is_pressed_once(events: Seq<HostKeyEvent>)
    ensures
        no_repeated_press(host_events(events).1),
    decreases events.len(),
{
    if events.len() > 0 {
        lemma_held_key_is_pressed_once(events.drop_last());
        let (held, queue) = host_events(events.drop_last());
        let (now_held, message) = host_event(held, events.last());
        match message {
            Some(m) => {
                let grown = queue.push(m);
                let j = queue.len() as int;
                assert forall|a: int, b: int| #[trigger]
                    pressed_again(grown, a, b) implies released_between(grown, a, b) by {
                    if b < j {
                        assert(pressed_again(queue, a, b));
                        assert(released_between(queue, a, b));
                        let w = choose|w: int|
                            a < w < b && #[trigger] queue[w] == (queue[a].0, KeyAction::Released);
                        assert(grown[w] == (grown[a].0, KeyAction::Released));
                    } else {
                        // the message just queued is a press of a key that was not held
                        let key = m.0;
                        let start = tracker(idle_keypad(), KeyboardState::Normal);
                        lemma_tracker_follows_host(events.drop_last(), KeyboardState::Normal);
                        assert(!held[key as int]);
                        assert(queue[a].0 == key);
                        let last = lemma_last_for_exists(queue, key);
                        lemma_last_message_wins(start, queue, key);
                        assert(is_last_for(queue, key, last));
                        assert(queue[last].1 is Released);
                        if last < a {
                            assert(queue[a].0 != key);
                        }
                        assert(grown[last] == (grown[a].0, KeyAction::Released));
                    }
                }
            },
            None => {},
        }
    } else {
        assert forall|a: int, b: int| #[trigger]
            pressed_again(host_events(events).1, a, b) implies released_between(
            host_events(events).1,
            a,
            b,
        ) by {}
    }
}

} // verus!
