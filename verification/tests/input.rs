use rtxel::client::frame::{FailedFrame, SurfaceStatus, surface_frame};
use rtxel::client::keyboard::Keyboard as EngineKeyboard;
use rtxel::input::keyboard::Keyboard;
use rtxel::input::mouse::Mouse;
use rtxel::schedule::Order;

#[test]
fn key_is_just_pressed_only_on_its_frame() {
    let mut k = Keyboard::new();
    k.press(17);
    assert!(k.is_pressed(17));
    assert!(k.just_pressed(17));
    k.clear_just_pressed();
    assert!(k.is_pressed(17));
    assert!(!k.just_pressed(17));
    k.press(17);
    assert!(!k.just_pressed(17));
    k.release(17);
    assert!(!k.is_pressed(17));
    k.press(17);
    assert!(k.just_pressed(17));
}

#[test]
fn mouse_buttons_work_like_keys() {
    let mut m = Mouse::new();
    m.press(0);
    assert!(m.just_pressed(0) && m.is_pressed(0));
    m.release(0);
    assert!(!m.is_pressed(0));
    assert!(m.just_pressed(0));
    m.clear_just_pressed();
    assert!(!m.just_pressed(0));
}

#[test]
fn engine_keyboard_clear() {
    let mut k = EngineKeyboard::new();
    k.press(3);
    k.clear();
    assert!(k.is_pressed(3));
    assert!(!k.just_pressed(3));
}

#[test]
fn insert_after_first_occurrence() {
    let mut o = Order::new(vec![1, 2, 3, 2]);
    o.insert_after(2, 9);
    assert_eq!(o.schedules, vec![1, 2, 9, 3, 2]);
    o.insert_after(2, 8);
    assert_eq!(o.schedules, vec![1, 2, 8, 9, 3, 2]);
}

#[test]
fn surface_status_decides_the_frame() {
    assert_eq!(surface_frame(SurfaceStatus::Success), Ok(()));
    assert_eq!(surface_frame(SurfaceStatus::Suboptimal), Ok(()));
    assert_eq!(surface_frame(SurfaceStatus::Timeout), Err(FailedFrame::Skip));
    assert_eq!(surface_frame(SurfaceStatus::Occluded), Err(FailedFrame::Skip));
    assert_eq!(surface_frame(SurfaceStatus::Outdated), Err(FailedFrame::Outdated));
    assert_eq!(surface_frame(SurfaceStatus::Lost), Err(FailedFrame::Critical));
    assert_eq!(surface_frame(SurfaceStatus::Validation), Err(FailedFrame::Critical));
}
