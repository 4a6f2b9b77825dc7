use rust_invaders::input::{
    Events, InputEvent, KEYCODE_DOWN, KEYCODE_ESCAPE, KEYCODE_LEFT, KEYCODE_RIGHT, KEYCODE_SPACE,
    KEYCODE_UP,
};
use rust_invaders::menu::{wants_quit, Menu, MenuStep};
use rust_invaders::ship::{steer, ShipFrame, Steering};

fn tick(ev: &mut Events, batch: Vec<InputEvent>) {
    ev.pump(&batch);
}

#[test]
fn menu_wraps_both_ways() {
    let mut ev = Events::new();
    let mut menu = Menu::new(2);
    assert_eq!(menu.selected(), 0);

    tick(&mut ev, vec![InputEvent::KeyDown(KEYCODE_UP)]);
    assert_eq!(menu.update(ev.now()), MenuStep::Show(1));
    assert_eq!(menu.selected(), 1);

    tick(&mut ev, vec![InputEvent::KeyUp(KEYCODE_UP), InputEvent::KeyDown(KEYCODE_DOWN)]);
    assert_eq!(menu.update(ev.now()), MenuStep::Show(0));
    assert_eq!(menu.selected(), 0);

    tick(&mut ev, vec![InputEvent::KeyUp(KEYCODE_DOWN), InputEvent::KeyDown(KEYCODE_DOWN)]);
    assert_eq!(menu.update(ev.now()), MenuStep::Show(1));

    // Held, not pressed again: no move.
    tick(&mut ev, vec![]);
    assert_eq!(menu.update(ev.now()), MenuStep::Show(1));
}

#[test]
fn menu_space_chooses_selection() {
    let mut ev = Events::new();
    let mut menu = Menu::new(3);
    tick(&mut ev, vec![InputEvent::KeyDown(KEYCODE_DOWN)]);
    menu.update(ev.now());
    tick(&mut ev, vec![InputEvent::KeyDown(KEYCODE_SPACE), InputEvent::KeyDown(KEYCODE_UP)]);
    assert_eq!(menu.update(ev.now()), MenuStep::Choose(1));
    assert_eq!(menu.selected(), 1);
}

#[test]
fn menu_quits_on_escape_or_close() {
    let mut ev = Events::new();
    let mut menu = Menu::new(2);
    tick(&mut ev, vec![InputEvent::KeyDown(KEYCODE_ESCAPE), InputEvent::KeyDown(KEYCODE_SPACE)]);
    assert!(wants_quit(ev.now()));
    assert_eq!(menu.update(ev.now()), MenuStep::Quit);

    tick(&mut ev, vec![InputEvent::Quit]);
    assert_eq!(menu.update(ev.now()), MenuStep::Quit);

    tick(&mut ev, vec![]);
    assert!(!wants_quit(ev.now()));
    assert_eq!(menu.update(ev.now()), MenuStep::Show(0));
}

#[test]
fn up_left_is_diagonal() {
    let mut ev = Events::new();
    tick(&mut ev, vec![InputEvent::KeyDown(KEYCODE_LEFT), InputEvent::KeyDown(KEYCODE_UP)]);
    let s = steer(&ev);
    assert_eq!(s, Steering { dx: -1, dy: -1, diagonal: true });
    // Each component is scaled so that the move keeps its length.
    let speed = 360.0f64;
    let scale = if s.diagonal { 1.0 / 2.0f64.sqrt() } else { 1.0 };
    let (mx, my) = (s.dx as f64 * scale * speed, s.dy as f64 * scale * speed);
    assert!(((mx * mx + my * my).sqrt() - speed).abs() < 1e-9);
    assert!((mx - my).abs() < 1e-9 && mx < 0.0);
    assert_eq!(ShipFrame::facing(s.dx, s.dy), ShipFrame::UpSlow);
}

#[test]
fn opposing_keys_cancel() {
    let mut ev = Events::new();
    tick(&mut ev, vec![InputEvent::KeyDown(KEYCODE_LEFT), InputEvent::KeyDown(KEYCODE_RIGHT)]);
    assert_eq!(steer(&ev), Steering { dx: 0, dy: 0, diagonal: false });
    tick(&mut ev, vec![InputEvent::KeyDown(KEYCODE_DOWN)]);
    assert_eq!(steer(&ev), Steering { dx: 0, dy: 1, diagonal: false });
    tick(&mut ev, vec![InputEvent::KeyUp(KEYCODE_LEFT)]);
    assert_eq!(steer(&ev), Steering { dx: 1, dy: 1, diagonal: true });
}

#[test]
fn frames_follow_the_sheet() {
    assert_eq!(ShipFrame::facing(0, -1), ShipFrame::UpNorm);
    assert_eq!(ShipFrame::facing(1, -1), ShipFrame::UpFast);
    assert_eq!(ShipFrame::facing(0, 0), ShipFrame::MidNorm);
    assert_eq!(ShipFrame::facing(-1, 0), ShipFrame::MidSlow);
    assert_eq!(ShipFrame::facing(1, 1), ShipFrame::DownFast);
    assert_eq!(ShipFrame::facing(-1, 1).index(), 8);
    assert_eq!(ShipFrame::MidNorm.index(), 3);
    assert_eq!(ShipFrame::UpNorm.index(), 0);
}
