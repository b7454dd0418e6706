use chip_8_emulator::emulator::Emulator;
use chip_8_emulator::keyboard::{KeyAction, KeyMessage, KeyboardManager, KeyboardState, KEY_COUNT};
use chip_8_emulator::ProgramOptions;

const SCANCODES: [u32; 16] = [
    0x2D, 0x02, 0x03, 0x04, 0x10, 0x11, 0x12, 0x1E, 0x1F, 0x20, 0x2C, 0x2E, 0x05, 0x13, 0x21, 0x2F,
];

fn emulator() -> Emulator {
    Emulator::new(&ProgramOptions::new(vec![0], 500, false, false).unwrap())
}

fn pressed(manager: &KeyboardManager) -> Vec<bool> {
    (0..16u8).map(|key| manager.is_pressed(key)).collect()
}

#[test]
fn a_new_tracker_holds_no_key() {
    let (manager, state) = KeyboardManager::new();
    assert_eq!(KEY_COUNT, 16);
    assert_eq!(pressed(&manager), vec![false; 16]);
    assert_eq!(manager.last_key(), None);
    assert_eq!(state, KeyboardState::Normal);
    assert_eq!(KeyboardState::default(), KeyboardState::Normal);
    assert_eq!(pressed(&KeyboardManager::default()), vec![false; 16]);
}

#[test]
fn a_press_holds_the_key_and_a_release_lets_it_go() {
    let (mut manager, _) = KeyboardManager::new();
    manager.record(0xA, KeyAction::Pressed);
    assert!(manager.is_pressed(0xA));
    assert_eq!(manager.last_key(), Some(0xA));
    manager.record(0x3, KeyAction::Pressed);
    assert!(manager.is_pressed(0xA));
    assert!(manager.is_pressed(0x3));
    assert_eq!(manager.last_key(), Some(0x3));
    manager.record(0x3, KeyAction::Released);
    assert!(manager.is_pressed(0xA));
    assert!(!manager.is_pressed(0x3));
    assert_eq!(manager.last_key(), Some(0x3));
    for key in 0..16u8 {
        assert_eq!(manager.is_pressed(key), key == 0xA);
    }
}

#[test]
fn a_press_ends_a_wait_and_nothing_else_does() {
    let mut state = KeyboardState::Normal;
    assert!(!state.key_pressed(7));
    assert_eq!(state, KeyboardState::Normal);
    assert_eq!(state.take_key(), None);
    assert_eq!(state, KeyboardState::Normal);

    state.begin_wait();
    assert_eq!(state, KeyboardState::Waiting);
    assert_eq!(state.take_key(), None);
    assert_eq!(state, KeyboardState::Waiting);

    assert!(state.key_pressed(7));
    assert_eq!(state, KeyboardState::PressedWhileWaiting(7));
    assert_eq!(state.take_key(), Some(7));
    assert_eq!(state, KeyboardState::Normal);
    assert_eq!(state.take_key(), None);
}

#[test]
fn the_loop_records_every_message() {
    let (mut manager, mut state) = KeyboardManager::new();
    let messages: Vec<KeyMessage> = vec![
        (1, KeyAction::Pressed),
        (2, KeyAction::Pressed),
        (1, KeyAction::Released),
        (15, KeyAction::Pressed),
        (0, KeyAction::Released),
    ];
    assert!(!manager.start(&mut state, &messages));
    assert_eq!(state, KeyboardState::Normal);
    for key in 0..16u8 {
        assert_eq!(manager.is_pressed(key), key == 2 || key == 15);
    }
    assert_eq!(manager.last_key(), Some(15));
}

#[test]
fn the_loop_on_an_empty_queue_changes_nothing() {
    let (mut manager, mut state) = KeyboardManager::new();
    manager.record(4, KeyAction::Pressed);
    state.begin_wait();
    assert!(!manager.start(&mut state, &Vec::new()));
    assert_eq!(state, KeyboardState::Waiting);
    assert!(manager.is_pressed(4));
    assert_eq!(manager.last_key(), Some(4));
}

#[test]
fn the_held_keys_are_those_with_an_odd_number_of_messages() {
    // every key alternates press and release, starting with a press
    let (mut manager, mut state) = KeyboardManager::new();
    let mut messages: Vec<KeyMessage> = Vec::new();
    let mut counts = [0u32; 16];
    let mut seed = 12345u32;
    for _ in 0..500 {
        seed = seed.wrapping_mul(1664525).wrapping_add(1013904223);
        let key = (seed >> 24) as u8 % 16;
        let action =
            if counts[key as usize] % 2 == 0 { KeyAction::Pressed } else { KeyAction::Released };
        counts[key as usize] += 1;
        messages.push((key, action));
    }
    manager.start(&mut state, &messages);
    for key in 0..16u8 {
        assert_eq!(manager.is_pressed(key), counts[key as usize] % 2 == 1);
    }
}

#[test]
fn a_release_of_a_key_that_is_not_held_breaks_the_parity() {
    let (mut manager, mut state) = KeyboardManager::new();
    manager.start(&mut state, &vec![(3, KeyAction::Released)]);
    assert!(!manager.is_pressed(3));
}

#[test]
fn a_wait_is_ended_once_by_the_next_press() {
    let (mut manager, mut state) = KeyboardManager::new();
    // key 9 is down before the wait begins: it does not end the wait
    manager.start(&mut state, &vec![(9, KeyAction::Pressed)]);
    state.begin_wait();
    assert_eq!(state.take_key(), None);
    // releases do not end it either
    assert!(!manager.start(&mut state, &vec![(9, KeyAction::Released), (2, KeyAction::Released)]));
    assert_eq!(state, KeyboardState::Waiting);
    assert_eq!(state.take_key(), None);
    // the next press does, whichever key it is
    assert!(manager.start(&mut state, &vec![(5, KeyAction::Released), (0xC, KeyAction::Pressed)]));
    assert_eq!(state, KeyboardState::PressedWhileWaiting(0xC));
    assert_eq!(state.take_key(), Some(0xC));
    assert_eq!(state, KeyboardState::Normal);
    assert_eq!(state.take_key(), None);
    // a later press wakes nobody
    assert!(!manager.start(&mut state, &vec![(1, KeyAction::Pressed)]));
    assert_eq!(state, KeyboardState::Normal);
    assert_eq!(state.take_key(), None);
}

#[test]
fn releases_after_the_waking_press_leave_the_key_to_be_taken() {
    let (mut manager, mut state) = KeyboardManager::new();
    state.begin_wait();
    assert!(manager.start(&mut state, &vec![(6, KeyAction::Pressed), (6, KeyAction::Released)]));
    assert_eq!(state, KeyboardState::PressedWhileWaiting(6));
    assert!(!manager.is_pressed(6));
    assert_eq!(state.take_key(), Some(6));
}

#[test]
fn every_keypad_key_has_its_scancode() {
    for (key, scancode) in SCANCODES.iter().enumerate() {
        let mut emulator = emulator();
        assert!(!emulator.is_held(key as u8));
        assert_eq!(emulator.key_down_event(*scancode), Some((key as u8, KeyAction::Pressed)));
        for other in 0..16u8 {
            assert_eq!(emulator.is_held(other), other as usize == key);
        }
        assert_eq!(emulator.key_up_event(*scancode), Some((key as u8, KeyAction::Released)));
        assert!(!emulator.is_held(key as u8));
    }
}

#[test]
fn other_host_keys_are_ignored() {
    let mut emulator = emulator();
    for scancode in [0x00u32, 0x01, 0x06, 0x0F, 0x14, 0x1D, 0x22, 0x2B, 0x30, 0x39, 0xFFFF_FFFF] {
        assert_eq!(emulator.key_down_event(scancode), None);
        assert_eq!(emulator.key_up_event(scancode), None);
    }
    for key in 0..16u8 {
        assert!(!emulator.is_held(key));
    }
}

#[test]
fn a_held_key_is_reported_as_pressed_once() {
    let mut emulator = emulator();
    assert_eq!(emulator.key_down_event(0x10), Some((4, KeyAction::Pressed)));
    assert_eq!(emulator.key_down_event(0x10), None);
    assert_eq!(emulator.key_down_event(0x10), None);
    assert!(emulator.is_held(4));
    assert_eq!(emulator.key_up_event(0x10), Some((4, KeyAction::Released)));
    assert_eq!(emulator.key_down_event(0x10), Some((4, KeyAction::Pressed)));
}

#[test]
fn a_key_up_is_always_reported() {
    let mut emulator = emulator();
    assert_eq!(emulator.key_up_event(0x2F), Some((0xF, KeyAction::Released)));
    assert_eq!(emulator.key_up_event(0x2F), Some((0xF, KeyAction::Released)));
    assert!(!emulator.is_held(0xF));
}

#[test]
fn what_the_emulator_reports_keeps_the_tracker_in_step() {
    let mut emulator = emulator();
    let (mut manager, mut state) = KeyboardManager::new();
    let mut queue: Vec<KeyMessage> = Vec::new();
    let mut seed = 99u32;
    for _ in 0..400 {
        seed = seed.wrapping_mul(1664525).wrapping_add(1013904223);
        let scancode = SCANCODES[(seed >> 20) as usize % 16];
        let message = if (seed >> 8) % 3 == 0 {
            emulator.key_up_event(scancode)
        } else {
            emulator.key_down_event(scancode)
        };
        if let Some(message) = message {
            queue.push(message);
        }
    }
    manager.start(&mut state, &queue);
    for key in 0..16u8 {
        assert_eq!(manager.is_pressed(key), emulator.is_held(key));
    }
}
