use wasm4_gol::{
    GamepadButton, GamepadIndex, GamepadState, GlobalGamepads, GlobalMouse, MouseButton,
    BUTTON_1, BUTTON_2, BUTTON_DOWN, BUTTON_LEFT, BUTTON_RIGHT, BUTTON_UP,
};

#[test]
fn edge_is_current_and_not_previous() {
    let s = GlobalGamepads::get_gamepad_inner(0b0000_0111, 0b0000_0101);
    assert_eq!(s.pressed, 0b0000_0111);
    assert_eq!(s.just_pressed, 0b0000_0010);
    let s = GlobalGamepads::get_gamepad_inner(0, 0xff);
    assert_eq!(s.just_pressed, 0);
}

#[test]
fn held_button_fires_once() {
    let mut pads = GlobalGamepads::new();
    let mut just = Vec::new();
    let mut held = Vec::new();
    let raws = [0u8, BUTTON_1, BUTTON_1, BUTTON_1, BUTTON_1 | BUTTON_2, 0, BUTTON_1];
    for raw in raws {
        let s = pads.get_gamepad(GamepadIndex::I1, raw);
        just.push(s.is_button_just_pressed(GamepadButton::X));
        held.push(s.is_button_pressed(GamepadButton::X));
        pads.tick_frame_end([raw, 0, 0, 0]);
    }
    assert_eq!(just, vec![false, true, false, false, false, false, true]);
    assert_eq!(held, vec![false, true, true, true, true, false, true]);
}

#[test]
fn slots_are_tracked_apart() {
    let mut pads = GlobalGamepads::new();
    pads.tick_frame_end([BUTTON_UP, 0, 0, 0]);
    let all = pads.get_all_gamepads([BUTTON_UP, BUTTON_UP, 0, 0]);
    assert!(!all[0].is_button_just_pressed(GamepadButton::Up));
    assert!(all[1].is_button_just_pressed(GamepadButton::Up));
    assert!(!all[2].is_button_pressed(GamepadButton::Up));
    pads.update_previous_state(GamepadIndex::I3, BUTTON_DOWN);
    assert_eq!(pads.previous, [BUTTON_UP, 0, BUTTON_DOWN, 0]);
}

#[test]
fn button_masks() {
    assert_eq!(GamepadButton::X.mask(), 1);
    assert_eq!(GamepadButton::Z.mask(), 2);
    assert_eq!(GamepadButton::Left.mask(), BUTTON_LEFT);
    assert_eq!(GamepadButton::Right.mask(), 32);
    assert_eq!(GamepadButton::Up.mask(), 64);
    assert_eq!(GamepadButton::Down.mask(), 128);
    assert_eq!(GamepadButton::from_mask(BUTTON_RIGHT), GamepadButton::Right);
    assert_eq!(GamepadButton::from_mask(BUTTON_DOWN), GamepadButton::Down);
    assert_eq!(GamepadButton::from_mask(BUTTON_1).mask(), BUTTON_1);
}

#[test]
fn gamepad_index_all_in_order() {
    let all = GamepadIndex::all();
    let slots: Vec<usize> = all.iter().map(|i| i.as_usize()).collect();
    assert_eq!(slots, vec![0, 1, 2, 3]);
}

#[test]
fn default_gamepad_state_has_nothing() {
    let s = GamepadState::default();
    assert!(!s.is_button_pressed(GamepadButton::X));
    assert!(!s.is_button_just_pressed(GamepadButton::Z));
}

#[test]
fn mouse_edges_and_position() {
    let mut mouse = GlobalMouse::new();
    let s = mouse.get(-3, 170, 0b011);
    assert_eq!(s.position(), (-3, 170));
    assert!(s.is_button_pressed(MouseButton::Left));
    assert!(s.is_button_just_pressed(MouseButton::Right));
    assert!(!s.is_button_pressed(MouseButton::Middle));
    mouse.tick_frame_end(0b011);
    let s = mouse.get(0, 0, 0b111);
    assert!(!s.is_button_just_pressed(MouseButton::Left));
    assert!(s.is_button_just_pressed(MouseButton::Middle));
    assert_eq!(MouseButton::Middle.mask(), 4);
}
