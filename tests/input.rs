use rust_invaders::input::{
    channel_of_keycode, Channel, Events, InputEvent, KEYCODE_DOWN, KEYCODE_ESCAPE, KEYCODE_LEFT,
    KEYCODE_RIGHT, KEYCODE_SPACE, KEYCODE_UP,
};

const ALL: [Channel; 6] = [
    Channel::Escape,
    Channel::Up,
    Channel::Down,
    Channel::Left,
    Channel::Right,
    Channel::Space,
];

#[test]
fn keycodes_map_to_channels() {
    assert_eq!(channel_of_keycode(KEYCODE_ESCAPE), Some(Channel::Escape));
    assert_eq!(channel_of_keycode(27), Some(Channel::Escape));
    assert_eq!(channel_of_keycode(32), Some(Channel::Space));
    assert_eq!(channel_of_keycode(1073741906), Some(Channel::Up));
    assert_eq!(channel_of_keycode(1073741905), Some(Channel::Down));
    assert_eq!(channel_of_keycode(1073741904), Some(Channel::Left));
    assert_eq!(channel_of_keycode(1073741903), Some(Channel::Right));
    assert_eq!(channel_of_keycode(97), None);
}

#[test]
fn new_tracker_is_idle() {
    let ev = Events::new();
    for c in ALL {
        assert!(!ev.is_held(c));
        assert_eq!(ev.now().key(c), None);
    }
    assert!(!ev.now().quit());
}

#[test]
fn press_is_reported_once_while_held() {
    let mut ev = Events::new();
    ev.pump(&vec![InputEvent::KeyDown(KEYCODE_UP)]);
    assert_eq!(ev.now().key(Channel::Up), Some(true));
    assert!(ev.is_held(Channel::Up));

    for _ in 0..5 {
        ev.pump(&vec![]);
        assert_eq!(ev.now().key(Channel::Up), None);
        assert!(ev.is_held(Channel::Up));
    }

    // Key repeat while held: still no new press.
    ev.pump(&vec![InputEvent::KeyDown(KEYCODE_UP), InputEvent::KeyDown(KEYCODE_UP)]);
    assert_eq!(ev.now().key(Channel::Up), None);
    assert!(ev.is_held(Channel::Up));

    ev.pump(&vec![InputEvent::KeyUp(KEYCODE_UP)]);
    assert_eq!(ev.now().key(Channel::Up), Some(false));
    assert!(!ev.is_held(Channel::Up));

    ev.pump(&vec![InputEvent::KeyDown(KEYCODE_UP)]);
    assert_eq!(ev.now().key(Channel::Up), Some(true));
}

#[test]
fn empty_batch_keeps_held_and_clears_edges() {
    let mut ev = Events::new();
    ev.pump(&vec![
        InputEvent::KeyDown(KEYCODE_LEFT),
        InputEvent::KeyDown(KEYCODE_SPACE),
        InputEvent::KeyUp(KEYCODE_SPACE),
        InputEvent::Quit,
    ]);
    assert!(ev.now().quit());
    ev.pump(&vec![]);
    assert!(ev.is_held(Channel::Left));
    assert!(!ev.is_held(Channel::Space));
    for c in ALL {
        assert_eq!(ev.now().key(c), None);
    }
    assert!(!ev.now().quit());
}

#[test]
fn release_is_reported_even_when_not_held() {
    let mut ev = Events::new();
    ev.pump(&vec![InputEvent::KeyUp(KEYCODE_DOWN)]);
    assert_eq!(ev.now().key(Channel::Down), Some(false));
    assert!(!ev.is_held(Channel::Down));
}

#[test]
fn press_and_release_in_one_batch() {
    let mut ev = Events::new();
    ev.pump(&vec![InputEvent::KeyDown(KEYCODE_RIGHT), InputEvent::KeyUp(KEYCODE_RIGHT)]);
    assert_eq!(ev.now().key(Channel::Right), Some(false));
    assert!(!ev.is_held(Channel::Right));

    ev.pump(&vec![InputEvent::KeyUp(KEYCODE_RIGHT), InputEvent::KeyDown(KEYCODE_RIGHT)]);
    assert_eq!(ev.now().key(Channel::Right), Some(true));
    assert!(ev.is_held(Channel::Right));
}

#[test]
fn unknown_events_are_ignored() {
    let mut ev = Events::new();
    ev.pump(&vec![InputEvent::KeyDown(97), InputEvent::KeyUp(98), InputEvent::Other]);
    for c in ALL {
        assert!(!ev.is_held(c));
        assert_eq!(ev.now().key(c), None);
    }
    assert!(!ev.now().quit());
}

#[test]
fn quit_is_one_shot() {
    let mut ev = Events::new();
    ev.pump(&vec![InputEvent::Quit]);
    assert!(ev.now().quit());
    ev.pump(&vec![InputEvent::Other]);
    assert!(!ev.now().quit());
}

#[test]
fn escape_edge() {
    let mut ev = Events::new();
    ev.pump(&vec![InputEvent::KeyDown(KEYCODE_ESCAPE)]);
    assert_eq!(ev.now().key(Channel::Escape), Some(true));
    assert_eq!(ev.now().key(Channel::Up), None);
}
