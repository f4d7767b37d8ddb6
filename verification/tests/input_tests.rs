use jaankaup_core::input::{
    ElementState, InputCache, InputEvent, InputState, KeyboardInput, MouseButtonKind,
    MouseButtons,
};

#[test]
fn input_state_press_hold_release() {
    let mut s = InputState::Pressed(10);
    s.update(&ElementState::Pressed, 20);
    assert_eq!(s, InputState::Down(10, 20));
    s.update(&ElementState::Pressed, 30);
    assert_eq!(s, InputState::Down(10, 30));
    s.update(&ElementState::Released, 40);
    assert_eq!(s, InputState::Released(10, 40));
    s.update(&ElementState::Pressed, 50);
    assert_eq!(s, InputState::Pressed(50));
    s.update(&ElementState::Released, 60);
    assert_eq!(s, InputState::Released(50, 60));
}

#[test]
fn mouse_buttons_track_left_middle_right() {
    let mut b = MouseButtons::init();
    assert_eq!(b.get_left(), None);
    b.update(&MouseButtonKind::Left, &ElementState::Pressed, 5);
    assert_eq!(b.get_left(), Some(InputState::Pressed(5)));
    assert_eq!(b.get_right(), None);
    b.update(&MouseButtonKind::Left, &ElementState::Released, 9);
    assert_eq!(b.get_left(), Some(InputState::Released(5, 9)));
    // An untracked button becomes pressed whatever the event.
    b.update(&MouseButtonKind::Right, &ElementState::Released, 11);
    assert_eq!(b.get_right(), Some(InputState::Pressed(11)));
    b.update(&MouseButtonKind::Middle, &ElementState::Pressed, 12);
    b.update(&MouseButtonKind::Other(7), &ElementState::Pressed, 13);
    assert_eq!(b.get_middle(), Some(InputState::Pressed(12)));
    b.forced_update();
    assert_eq!(b.get_left(), None);
    assert_eq!(b.get_middle(), Some(InputState::Pressed(12)));
    assert_eq!(b.get_right(), Some(InputState::Pressed(11)));
}

#[test]
fn input_cache_keys_and_clock() {
    let mut c = InputCache::init();
    c.pre_update(100);
    assert_eq!(c.time_now, 100);
    assert_eq!(c.time_delta, 100);
    let a = KeyboardInput { virtual_keycode: Some(30), state: ElementState::Pressed };
    c.update(&InputEvent::KeyboardInput(a));
    assert_eq!(c.clone().key_state(&30), Some(InputState::Pressed(100)));
    c.pre_update(150);
    assert_eq!(c.time_delta, 50);
    c.update(&InputEvent::KeyboardInput(a));
    assert_eq!(c.clone().key_state(&30), Some(InputState::Down(100, 150)));
    let up = KeyboardInput { virtual_keycode: Some(30), state: ElementState::Released };
    c.update(&InputEvent::KeyboardInput(up));
    assert_eq!(c.clone().key_state(&30), Some(InputState::Released(100, 150)));
    c.update(&InputEvent::KeyboardInput(KeyboardInput {
        virtual_keycode: None,
        state: ElementState::Pressed,
    }));
    c.pre_update(200);
    assert_eq!(c.clone().key_state(&30), None);
    assert_eq!(c.keyboard.len(), 0);
}

#[test]
fn input_cache_mouse_buttons() {
    let mut c = InputCache::init();
    c.pre_update(7);
    c.update(&InputEvent::MouseInput {
        button: MouseButtonKind::Left,
        state: ElementState::Pressed,
    });
    assert_eq!(c.clone().mouse_button_state(&MouseButtonKind::Left), Some(InputState::Pressed(7)));
    assert_eq!(c.clone().mouse_button_state(&MouseButtonKind::Other(3)), None);
    c.update(&InputEvent::MouseInput {
        button: MouseButtonKind::Left,
        state: ElementState::Released,
    });
    c.pre_update(8);
    assert_eq!(c.clone().mouse_button_state(&MouseButtonKind::Left), None);
}
