use arcade_ui::input::{EventPump, FrameOutcome, InputSnapshot, Key, KeyState, RawEvent};
use arcade_ui::input::{run_frame, should_quit};

fn all_keys() -> Vec<Key> {
    vec![Key::Escape, Key::Up, Key::Down]
}

fn down(k: Key) -> RawEvent {
    RawEvent::KeyInput { key: k, is_down: true }
}

fn up(k: Key) -> RawEvent {
    RawEvent::KeyInput { key: k, is_down: false }
}

#[test]
fn new_pump_all_unchanged() {
    let pump = EventPump::new(all_keys());
    assert_eq!(pump.now.get(Key::Escape), KeyState::Unchanged);
    assert_eq!(pump.now.get(Key::Up), KeyState::Unchanged);
    assert_eq!(pump.now.get(Key::Down), KeyState::Unchanged);
}

#[test]
fn edge_detection_press_then_release() {
    // frames [ {Up:true} ], [], [ {Up:false} ], [] report
    // JustPressed, Unchanged, JustReleased, Unchanged
    let mut pump = EventPump::new(all_keys());

    pump.pump(&vec![down(Key::Up)]);
    assert_eq!(pump.now.get(Key::Up), KeyState::JustPressed);

    pump.pump(&vec![]);
    assert_eq!(pump.now.get(Key::Up), KeyState::Unchanged);

    pump.pump(&vec![up(Key::Up)]);
    assert_eq!(pump.now.get(Key::Up), KeyState::JustReleased);

    pump.pump(&vec![]);
    assert_eq!(pump.now.get(Key::Up), KeyState::Unchanged);
}

#[test]
fn held_key_reports_edge_only_once() {
    let mut pump = EventPump::new(all_keys());
    pump.pump(&vec![down(Key::Down)]);
    assert_eq!(pump.now.get(Key::Down), KeyState::JustPressed);
    // a repeated press event while the key is already held is no edge
    pump.pump(&vec![down(Key::Down)]);
    assert_eq!(pump.now.get(Key::Down), KeyState::Unchanged);
}

#[test]
fn release_while_up_is_no_edge() {
    let mut pump = EventPump::new(all_keys());
    pump.pump(&vec![up(Key::Up)]);
    assert_eq!(pump.now.get(Key::Up), KeyState::Unchanged);
}

#[test]
fn last_event_wins_within_a_frame() {
    let mut pump = EventPump::new(all_keys());
    pump.pump(&vec![down(Key::Up), up(Key::Up)]);
    assert_eq!(pump.now.get(Key::Up), KeyState::JustReleased);
}

#[test]
fn non_key_events_are_ignored() {
    let mut pump = EventPump::new(all_keys());
    pump.pump(&vec![RawEvent::Ignored, down(Key::Escape), RawEvent::Ignored]);
    assert_eq!(pump.now.get(Key::Escape), KeyState::JustPressed);
    assert_eq!(pump.now.get(Key::Up), KeyState::Unchanged);
}

#[test]
fn keys_are_tracked_independently() {
    let mut pump = EventPump::new(all_keys());
    pump.pump(&vec![down(Key::Up), down(Key::Down)]);
    assert_eq!(pump.now.get(Key::Up), KeyState::JustPressed);
    assert_eq!(pump.now.get(Key::Down), KeyState::JustPressed);
    assert_eq!(pump.now.get(Key::Escape), KeyState::Unchanged);
    pump.pump(&vec![up(Key::Up)]);
    assert_eq!(pump.now.get(Key::Up), KeyState::JustReleased);
    assert_eq!(pump.now.get(Key::Down), KeyState::Unchanged);
}

#[test]
fn untracked_key_reports_unchanged() {
    let mut pump = EventPump::new(vec![Key::Escape]);
    pump.pump(&vec![down(Key::Up)]);
    assert_eq!(pump.now.get(Key::Up), KeyState::Unchanged);
}

#[test]
fn should_quit_only_on_just_pressed_escape() {
    let mut pump = EventPump::new(all_keys());
    pump.pump(&vec![down(Key::Up)]);
    assert!(!should_quit(&pump.now));
    pump.pump(&vec![down(Key::Escape)]);
    assert!(should_quit(&pump.now));
    // escape still held the next frame: the signal is an edge, not a level
    pump.pump(&vec![]);
    assert!(!should_quit(&pump.now));
}

#[test]
fn snapshot_get_on_empty_snapshot() {
    let snap = InputSnapshot { states: vec![] };
    assert_eq!(snap.get(Key::Escape), KeyState::Unchanged);
}

#[test]
fn loop_runs_exactly_k_frames_before_escape() {
    // escape arrives on frame 3: the loop renders frames 0, 1 and 2,
    // three render cycles, and stops on frame 3 without rendering it
    let frames: Vec<Vec<RawEvent>> = vec![
        vec![],
        vec![down(Key::Up)],
        vec![RawEvent::Ignored],
        vec![down(Key::Escape)],
    ];
    let mut pump = EventPump::new(all_keys());
    let mut renders: usize = 0;
    for frame in &frames {
        match run_frame(&mut pump, frame) {
            FrameOutcome::Stop => break,
            FrameOutcome::Continue => renders += 1,
        }
    }
    assert_eq!(renders, 3);
}
