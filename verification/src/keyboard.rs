//! The 16-key keypad: which keys are held, and the blocking wait for the
//! next key press.

use vstd::prelude::*;

verus! {

/// Code of a key of the hexadecimal keypad, `0..=15`.
pub type KeyValue = u8;

/// Number of keys on the keypad.
pub const KEY_COUNT: usize = 16;

/// What happened to a key.
#[derive(Clone, Copy, Debug, PartialEq, Eq, Structural)]
pub enum KeyAction {
    Pressed,
    Released,
}

/// A key event as it travels through the input queue.
pub type KeyMessage = (KeyValue, KeyAction);

/// State of the wait for the next key press. `Waiting` is entered by the
/// waiter, `PressedWhileWaiting` by the keypad tracker on the next press, and
/// `Normal` again by the waiter when it takes the key.
#[derive(Clone, Copy, Debug, PartialEq, Eq, Structural)]
pub enum KeyboardState {
    Normal,
    Waiting,
    PressedWhileWaiting(KeyValue),
}

/// Mathematical content of [`KeyboardManager`].
pub struct Keypad {
    /// One flag per key: whether it is held.
    pub pressed: Seq<bool>,
    /// The key pressed most recently, if any was.
    pub last_key: Option<KeyValue>,
}

/// The keypad with no key held and none pressed yet.
pub open spec fn idle_keypad() -> Keypad {
    Keypad { pressed: Seq::new(KEY_COUNT as nat, |k: int| false), last_key: None }
}

/// The keypad after one key event. A press marks the key as held and
/// remembers it; a release marks it as not held.
pub open spec fn record_key(pad: Keypad, key: KeyValue, action: KeyAction) -> Keypad {
    match action {
        KeyAction::Pressed => Keypad {
            pressed: pad.pressed.update(key as int, true),
            last_key: Some(key),
        },
        KeyAction::Released => Keypad {
            pressed: pad.pressed.update(key as int, false),
            last_key: pad.last_key,
        },
    }
}

/// Tracks which keys of the keypad are held.
#[derive(Clone, Copy, Debug)]
pub struct KeyboardManager {
    pressed_keys: [bool; 16],
    last_key: Option<KeyValue>,
}

impl View for KeyboardManager {
    type V = Keypad;

    closed spec fn view(&self) -> Keypad {
        Keypad { pressed: self.pressed_keys@, last_key: self.last_key }
    }
}

impl Default for KeyboardManager {
    fn default() -> (manager: Self)
        ensures
            manager@ == idle_keypad(),
    {
        let manager = Self { pressed_keys: [false;16], last_key: None };
        assert(manager@.pressed =~= idle_keypad().pressed);
        manager
    }
}

impl KeyboardManager {
    /// A tracker with no key held, and the wait state it starts with.
    pub fn new() -> (pair: (Self, KeyboardState))
        ensures
            pair.0@ == idle_keypad(),
            pair.1 == KeyboardState::Normal,
    {
        (KeyboardManager::default(), KeyboardState::Normal)
    }

    /// Whether key `key_code` is held.
    pub fn is_pressed(&self, key_code: u8) -> (held: bool)
        requires
            key_code < KEY_COUNT,
        ensures
            held == self@.pressed[key_code as int],
    {
        self.pressed_keys[key_code as usize]
    }

    /// The key pressed most recently, if any was.
    pub fn last_key(&self) -> (key: Option<KeyValue>)
        ensures
            key == self@.last_key,
    {
        self.last_key
    }

    /// Records one key event.
    pub fn record(&mut self, key: KeyValue, action: KeyAction)
        requires
            key < KEY_COUNT,
        ensures
            final(self)@ == record_key(old(self)@, key, action),
    {
        match action {
            KeyAction::Pressed => {
                self.last_key = Some(key);
                self.pressed_keys[key as usize] = true;
            },
            KeyAction::Released => {
                self.pressed_keys[key as usize] = false;
            },
        }
    }
}

/// The wait state after a key press: a waiter that is waiting gets the key.
pub open spec fn note_press(state: KeyboardState, key: KeyValue) -> KeyboardState {
    match state {
        KeyboardState::Waiting => KeyboardState::PressedWhileWaiting(key),
        other => other,
    }
}

/// The wait state after the waiter looks at it, and the key it takes: a key
/// that was pressed while waiting is taken and the state returns to
/// `Normal`; any other state is left alone and yields no key.
pub open spec fn take_key(state: KeyboardState) -> (KeyboardState, Option<KeyValue>) {
    match state {
        KeyboardState::PressedWhileWaiting(key) => (KeyboardState::Normal, Some(key)),
        other => (other, None),
    }
}

impl Default for KeyboardState {
    fn default() -> (state: Self)
        ensures
            state == KeyboardState::Normal,
    {
        KeyboardState::Normal
    }
}

impl KeyboardState {
    /// Tracker: tells the wait state that `key` was pressed. Returns whether
    /// a waiter is to be woken. A key that was pressed while waiting must
    /// have been taken before the next press is reported.
    pub fn key_pressed(&mut self, key: KeyValue) -> (wake: bool)
        requires
            !(*old(self) is PressedWhileWaiting),
        ensures
            *final(self) == note_press(*old(self), key),
            wake == (*old(self) is Waiting),
    {
        match *self {
            KeyboardState::Waiting => {
                *self = KeyboardState::PressedWhileWaiting(key);
                true
            },
            _ => false,
        }
    }

    /// Waiter: announces that it waits for the next key press.
    pub fn begin_wait(&mut self)
        ensures
            *final(self) == KeyboardState::Waiting,
    {
        *self = KeyboardState::Waiting;
    }

    /// Waiter: takes the key that ended the wait, if one has. `None` means
    /// that the wait goes on.
    pub fn take_key(&mut self) -> (key: Option<KeyValue>)
        ensures
            (*final(self), key) == take_key(*old(self)),
    {
        match *self {
            KeyboardState::PressedWhileWaiting(key) => {
                *self = KeyboardState::Normal;
                Some(key)
            },
            _ => None,
        }
    }
}

/// The keypad together with the wait state, as the tracker loop sees them.
pub struct Tracker {
    pub pad: Keypad,
    pub state: KeyboardState,
}

/// The tracker made of a keypad and a wait state.
pub open spec fn tracker(pad: Keypad, state: KeyboardState) -> Tracker {
    Tracker { pad, state }
}

/// The tracker after one message: the keypad records it, and a press is
/// reported to the wait state.
pub open spec fn handle_message(tracker: Tracker, message: KeyMessage) -> Tracker {
    Tracker {
        pad: record_key(tracker.pad, message.0, message.1),
        state: match message.1 {
            KeyAction::Pressed => note_press(tracker.state, message.0),
            KeyAction::Released => tracker.state,
        },
    }
}

/// The tracker after the messages of `messages`, handled in order.
pub open spec fn handle_messages(tracker: Tracker, messages: Seq<KeyMessage>) -> Tracker
    decreases messages.len(),
{
    if messages.len() == 0 {
        tracker
    } else {
        handle_message(handle_messages(tracker, messages.drop_last()), messages.last())
    }
}

/// Whether the tracker can handle `message`: the key is on the keypad, and a
/// press does not find an earlier press still waiting to be taken.
pub open spec fn admits(tracker: Tracker, message: KeyMessage) -> bool {
    &&& message.0 < KEY_COUNT
    &&& message.1 is Pressed ==> !(tracker.state is PressedWhileWaiting)
}

/// Whether the tracker can handle all of `messages` in order.
pub open spec fn admits_all(tracker: Tracker, messages: Seq<KeyMessage>) -> bool {
    forall|i: int|
        0 <= i < messages.len() ==> admits(
            #[trigger] handle_messages(tracker, messages.take(i)),
            messages[i],
        )
}

impl KeyboardManager {
    /// Runs the tracker loop over the queued messages, in order: each one is
    /// recorded on the keypad, and the first press that finds the waiter
    /// waiting ends the wait. Returns whether the waiter is to be woken.
    pub fn start(&mut self, state: &mut KeyboardState, messages: &Vec<KeyMessage>) -> (wake: bool)
        requires
            admits_all(tracker(old(self)@, *old(state)), messages@),
        ensures
            tracker(final(self)@, *final(state)) == handle_messages(
                tracker(old(self)@, *old(state)),
                messages@,
            ),
            wake == ((*old(state) is Waiting) && (*final(state) is PressedWhileWaiting)),
    {
        let ghost start = tracker(self@, *state);
        let mut wake = false;
        let mut i: usize = 0;
        while i < messages.len()
            invariant
                0 <= i <= messages.len(),
                admits_all(start, messages@),
                tracker(self@, *state) == handle_messages(start, messages@.take(i as int)),
                wake == ((start.state is Waiting) && (*state is PressedWhileWaiting)),
                (start.state is Waiting) ==> (*state is Waiting) || (*state is PressedWhileWaiting),
                !(start.state is Waiting) ==> *state == start.state,
            decreases messages.len() - i,
        {
            let (key, action) = messages[i];
            proof {
                assert(messages@.take(i as int + 1).drop_last() =~= messages@.take(i as int));
                assert(messages@.take(i as int + 1).last() == messages@[i as int]);
                assert(admits(handle_messages(start, messages@.take(i as int)), messages@[i as int]));
            }
            self.record(key, action);
            match action {
                KeyAction::Pressed => {
                    if state.key_pressed(key) {
                        wake = true;
                    }
                },
                KeyAction::Released => {},
            }
            i += 1;
        }
        proof {
            assert(messages@.take(messages@.len() as int) =~= messages@);
        }
        wake
    }
}

/// A message that the tracker admits changes the wait state only from
/// `Waiting` to `PressedWhileWaiting(key)`, and only as a press of `key`.
/// Taking a key yields one exactly when one was pressed while waiting, and
/// never leaves one behind.
pub proof fn lemma_wait_state_moves_in_order(tracker: Tracker, message: KeyMessage)
    requires
        admits(tracker, message),
    ensures
        handle_message(tracker, message).state != tracker.state ==> (tracker.state is Waiting)
            && message.1 is Pressed && handle_message(tracker, message).state
            == KeyboardState::PressedWhileWaiting(message.0),
        !(take_key(tracker.state).0 is PressedWhileWaiting),
        take_key(tracker.state).1.is_some() <==> tracker.state is PressedWhileWaiting,
{
}

/// Number of messages of `messages` that are for `key`.
pub open spec fn event_count(messages: Seq<KeyMessage>, key: KeyValue) -> nat
    decreases messages.len(),
{
    if messages.len() == 0 {
        0
    } else {
        event_count(messages.drop_last(), key) + if messages.last().0 == key {
            1nat
        } else {
            0nat
        }
    }
}

/// Whether `message` changes its key on `pad`: a press of a key that is not
/// held, or a release of one that is.
pub open spec fn toggles(pad: Keypad, message: KeyMessage) -> bool {
    &&& message.0 < KEY_COUNT
    &&& message.1 is Pressed <==> !pad.pressed[message.0 as int]
}

/// Whether every message of `messages` changes its key when the messages are
/// handled in order, starting from `start`.
pub open spec fn alternating(start: Tracker, messages: Seq<KeyMessage>) -> bool {
    forall|i: int|
        0 <= i < messages.len() ==> toggles(
            (#[trigger] handle_messages(start, messages.take(i))).pad,
            messages[i],
        )
}

/// Handling messages for keys of the keypad keeps the keypad at its size.
pub proof fn lemma_keypad_keeps_its_size(start: Tracker, messages: Seq<KeyMessage>)
    requires
        forall|i: int| 0 <= i < messages.len() ==> (#[trigger] messages[i]).0 < start.pad.pressed.len(),
    ensures
        handle_messages(start, messages).pad.pressed.len() == start.pad.pressed.len(),
    decreases messages.len(),
{
    if messages.len() > 0 {
        lemma_keypad_keeps_its_size(start, messages.drop_last());
    }
}

/// Where every message changes its key, a key's flag after the messages
/// differs from its flag before exactly when the number of messages for that
/// key is odd. From the idle keypad, a key is held exactly when that number
/// is odd.
pub proof fn lemma_pressed_is_parity(start: Tracker, messages: Seq<KeyMessage>, key: KeyValue)
    requires
        start.pad.pressed.len() == KEY_COUNT,
        key < KEY_COUNT,
        alternating(start, messages),
    ensures
        handle_messages(start, messages).pad.pressed[key as int] == (start.pad.pressed[key as int]
            != (event_count(messages, key) % 2 == 1)),
        start.pad == idle_keypad() ==> handle_messages(start, messages).pad.pressed[key as int]
            == (event_count(messages, key) % 2 == 1),
    decreases messages.len(),
{
    if messages.len() > 0 {
        let front = messages.drop_last();
        assert forall|i: int| 0 <= i < front.len() implies toggles(
            (#[trigger] handle_messages(start, front.take(i))).pad,
            front[i],
        ) by {
            assert(front.take(i) =~= messages.take(i));
        }
        lemma_pressed_is_parity(start, front, key);
        assert forall|i: int| 0 <= i < front.len() implies (#[trigger] front[i]).0
            < start.pad.pressed.len() by {
            assert(toggles(handle_messages(start, front.take(i)).pad, front[i]));
        }
        lemma_keypad_keeps_its_size(start, front);
        assert(messages.take(messages.len() - 1) =~= front);
        assert(toggles(handle_messages(start, front).pad, messages[messages.len() - 1]));
    }
}

/// A waiter that waits is not released by key releases, is released by the
/// next key press, whichever key it is, takes exactly that key, and finds
/// nothing more to take afterwards.
pub proof fn lemma_wait_ends_with_next_press(
    pad: Keypad,
    releases: Seq<KeyMessage>,
    key: KeyValue,
)
    requires
        forall|i: int| 0 <= i < releases.len() ==> (#[trigger] releases[i]).1 is Released,
    ensures
        handle_messages(tracker(pad, KeyboardState::Waiting), releases).state
            == KeyboardState::Waiting,
        take_key(KeyboardState::Waiting) == (KeyboardState::Waiting, None::<KeyValue>),
        handle_messages(
            tracker(pad, KeyboardState::Waiting),
            releases.push((key, KeyAction::Pressed)),
        ).state == KeyboardState::PressedWhileWaiting(key),
        take_key(KeyboardState::PressedWhileWaiting(key)) == (KeyboardState::Normal, Some(key)),
        take_key(KeyboardState::Normal) == (KeyboardState::Normal, None::<KeyValue>),
    decreases releases.len(),
{
    let start = tracker(pad, KeyboardState::Waiting);
    if releases.len() > 0 {
        lemma_wait_ends_with_next_press(pad, releases.drop_last(), key);
    }
    let all = releases.push((key, KeyAction::Pressed));
    assert(all.drop_last() =~= releases);
}

/// Whether every message of `messages` is for a key of the keypad.
pub open spec fn on_keypad(messages: Seq<KeyMessage>) -> bool {
    forall|i: int| 0 <= i < messages.len() ==> (#[trigger] messages[i]).0 < KEY_COUNT
}

/// Whether `messages[i]` is for `key` and no later message is.
pub open spec fn is_last_for(messages: Seq<KeyMessage>, key: KeyValue, i: int) -> bool {
    &&& 0 <= i < messages.len()
    &&& messages[i].0 == key
    &&& forall|m: int| i < m < messages.len() ==> (#[trigger] messages[m]).0 != key
}

/// Whether `messages[i]` is a press and `messages[j]`, later, is a press of
/// the same key.
pub open spec fn pressed_again(messages: Seq<KeyMessage>, i: int, j: int) -> bool {
    &&& 0 <= i < j < messages.len()
    &&& messages[i].1 is Pressed
    &&& messages[j] == messages[i]
}

/// Whether the key of `messages[i]` is released between `i` and `j`.
pub open spec fn released_between(messages: Seq<KeyMessage>, i: int, j: int) -> bool {
    exists|m: int| i < m < j && #[trigger] messages[m] == (messages[i].0, KeyAction::Released)
}

/// Whether no key is pressed twice without a release of it in between.
pub open spec fn no_repeated_press(messages: Seq<KeyMessage>) -> bool {
    forall|i: int, j: int| #[trigger]
        pressed_again(messages, i, j) ==> released_between(messages, i, j)
}

/// Whether `messages[j]` is a release.
pub open spec fn is_release(messages: Seq<KeyMessage>, j: int) -> bool {
    0 <= j < messages.len() && messages[j].1 is Released
}

/// Whether the last message for the key of `messages[j]` before `j` is a
/// press.
pub open spec fn follows_press(messages: Seq<KeyMessage>, j: int) -> bool {
    exists|i: int| #[trigger]
        is_last_for(messages.take(j), messages[j].0, i) && messages[i].1 is Pressed
}

/// Whether every release follows a press of the same key, with no other
/// message for that key in between.
pub open spec fn no_stray_release(messages: Seq<KeyMessage>) -> bool {
    forall|j: int| #[trigger] is_release(messages, j) ==> follows_press(messages, j)
}

/// Where some message is for `key`, one of them is the last.
pub proof fn lemma_last_for_exists(messages: Seq<KeyMessage>, key: KeyValue) -> (i: int)
    requires
        exists|m: int| 0 <= m < messages.len() && (#[trigger] messages[m]).0 == key,
    ensures
        is_last_for(messages, key, i),
    decreases messages.len(),
{
    if messages.last().0 == key {
        messages.len() - 1
    } else {
        let front = messages.drop_last();
        let m = choose|m: int| 0 <= m < messages.len() && (#[trigger] messages[m]).0 == key;
        assert(front[m].0 == key);
        let i = lemma_last_for_exists(front, key);
        assert forall|n: int| i < n < messages.len() implies (#[trigger] messages[n]).0 != key by {
            if n < front.len() {
                assert(front[n].0 != key);
            }
        }
        i
    }
}

/// The last message for a key decides whether the key is held: it is held
/// after a press and not held after a release. A key that no message is for
/// keeps its flag.
pub proof fn lemma_last_message_wins(start: Tracker, messages: Seq<KeyMessage>, key: KeyValue)
    requires
        start.pad.pressed.len() == KEY_COUNT,
        key < KEY_COUNT,
        on_keypad(messages),
    ensures
        (forall|i: int| 0 <= i < messages.len() ==> (#[trigger] messages[i]).0 != key)
            ==> handle_messages(start, messages).pad.pressed[key as int]
            == start.pad.pressed[key as int],
        forall|i: int| #[trigger]
            is_last_for(messages, key, i) ==> handle_messages(start, messages).pad.pressed[key as int]
                == (messages[i].1 is Pressed),
    decreases messages.len(),
{
    if messages.len() > 0 {
        let front = messages.drop_last();
        let last = messages.last();
        assert(on_keypad(front)) by {
            assert forall|i: int| 0 <= i < front.len() implies (#[trigger] front[i]).0
                < KEY_COUNT by {
                assert(messages[i].0 < KEY_COUNT);
            }
        }
        lemma_last_message_wins(start, front, key);
        lemma_keypad_keeps_its_size(start, front);
        assert(last.0 < KEY_COUNT);
        if last.0 == key {
            assert forall|i: int| #[trigger] is_last_for(messages, key, i) implies i
                == messages.len() - 1 by {
                if i < messages.len() - 1 {
                    assert(messages[messages.len() - 1].0 != key);
                }
            }
        } else {
            assert forall|i: int| #[trigger] is_last_for(messages, key, i) implies is_last_for(
                front,
                key,
                i,
            ) by {
                assert forall|m: int| i < m < front.len() implies (#[trigger] front[m]).0
                    != key by {
                    assert(messages[m].0 != key);
                }
            }
            if forall|i: int| 0 <= i < messages.len() ==> (#[trigger] messages[i]).0 != key {
                assert forall|i: int| 0 <= i < front.len() implies (#[trigger] front[i]).0
                    != key by {
                    assert(messages[i].0 != key);
                }
            }
        }
    } else {
        assert forall|i: int| #[trigger] is_last_for(messages, key, i) implies false by {}
    }
}

/// On the idle keypad, a stream in which no key is pressed twice without a
/// release in between, and in which no key is released that is not held,
/// changes a key with each of its messages.
pub proof fn lemma_paired_messages_alternate(state: KeyboardState, messages: Seq<KeyMessage>)
    requires
        on_keypad(messages),
        no_repeated_press(messages),
        no_stray_release(messages),
    ensures
        alternating(tracker(idle_keypad(), state), messages),
{
    let start = tracker(idle_keypad(), state);
    assert forall|j: int| 0 <= j < messages.len() implies toggles(
        (#[trigger] handle_messages(start, messages.take(j))).pad,
        messages[j],
    ) by {
        let front = messages.take(j);
        let key = messages[j].0;
        assert(on_keypad(front)) by {
            assert forall|i: int| 0 <= i < front.len() implies (#[trigger] front[i]).0
                < KEY_COUNT by {
                assert(messages[i].0 < KEY_COUNT);
            }
        }
        lemma_last_message_wins(start, front, key);
        let held = handle_messages(start, front).pad.pressed[key as int];
        match messages[j].1 {
            KeyAction::Pressed => {
                if exists|m: int| 0 <= m < front.len() && (#[trigger] front[m]).0 == key {
                    let i = lemma_last_for_exists(front, key);
                    assert(is_last_for(front, key, i));
                    if front[i].1 is Pressed {
                        assert(messages[i] == front[i]);
                        assert(pressed_again(messages, i, j));
                        assert(released_between(messages, i, j));
                        let m = choose|m: int|
                            i < m < j && #[trigger] messages[m] == (
                                messages[i].0,
                                KeyAction::Released,
                            );
                        assert(front[m].0 != key);
                        assert(false);
                    }
                    assert(!held);
                } else {
                    assert forall|i: int| 0 <= i < front.len() implies (#[trigger] front[i]).0
                        != key by {}
                    assert(!held);
                }
            },
            KeyAction::Released => {
                assert(is_release(messages, j));
                assert(follows_press(messages, j));
                let i = choose|i: int|
                    #[trigger] is_last_for(messages.take(j), messages[j].0, i)
                        && messages[i].1 is Pressed;
                assert(front[i] == messages[i]);
                assert(held);
            },
        }
    }
}

/// After a stream of presses and releases in which no key is pressed twice
/// without a release in between, and no key is released that is not held,
/// the keypad that started idle holds a key exactly when the number of
/// messages for that key is odd.
pub proof fn lemma_bitmap_is_net_parity(
    state: KeyboardState,
    messages: Seq<KeyMessage>,
    key: KeyValue,
)
    requires
        key < KEY_COUNT,
        on_keypad(messages),
        no_repeated_press(messages),
        no_stray_release(messages),
    ensures
        handle_messages(tracker(idle_keypad(), state), messages).pad.pressed[key as int] == (
        event_count(messages, key) % 2 == 1),
{
    lemma_paired_messages_alternate(state, messages);
    lemma_pressed_is_parity(tracker(idle_keypad(), state), messages, key);
}

} // verus!
