use rust_opengl_learn::context::{EventHandler, KeyboardRegister, LoopContext2D};
use rust_opengl_learn::event_loop::{frame_control, loop_step, FrameControl, LoopEvent, LoopStep, FRAME_NANOS};
use rust_opengl_learn::input::{
    escape_action, handle_keyboard_input, CameraKeys, Key, KeyInput, KeyState, PlayerKeys,
};
use rust_opengl_learn::keyboard::{KeyboardHandler, KeyboardInteract};
use rust_opengl_learn::settings::{ExposureChange, KeyboardInteractor, SettingsKind};
use rust_opengl_learn::Action;

fn press(k: Key) -> KeyInput {
    KeyInput { keycode: Some(k), state: KeyState::Pressed }
}

fn release(k: Key) -> KeyInput {
    KeyInput { keycode: Some(k), state: KeyState::Released }
}

#[test]
fn escape_released_stops() {
    assert_eq!(escape_action(release(Key::Escape)), Some(Action::Stop));
    assert_eq!(escape_action(press(Key::Escape)), None);
    assert_eq!(escape_action(release(Key::Q)), None);
    assert_eq!(escape_action(KeyInput { keycode: None, state: KeyState::Released }), None);
}

#[test]
fn camera_keys_follow_movement_keys() {
    let mut keys = CameraKeys::new();
    assert!(keys.process_keyboard(Key::W, KeyState::Pressed));
    assert!(keys.forward);
    assert!(keys.process_keyboard(Key::Left, KeyState::Pressed));
    assert!(keys.left);
    assert!(keys.process_keyboard(Key::Up, KeyState::Released));
    assert!(!keys.forward);
    assert!(keys.process_keyboard(Key::LShift, KeyState::Pressed));
    assert!(keys.down);
    assert!(!keys.process_keyboard(Key::Q, KeyState::Pressed));
    assert!(keys.left && keys.down && !keys.forward && !keys.backward && !keys.right && !keys.up);
}

#[test]
fn camera_input_takes_keys_before_escape() {
    let mut keys = CameraKeys::new();
    assert_eq!(handle_keyboard_input(press(Key::Space), &mut keys), None);
    assert!(keys.up);
    assert_eq!(handle_keyboard_input(release(Key::Escape), &mut keys), Some(Action::Stop));
    assert_eq!(handle_keyboard_input(release(Key::Other(7)), &mut keys), None);
}

#[test]
fn player_keys_follow_input() {
    let mut keys = PlayerKeys::new();
    keys.interact(press(Key::A));
    assert!(keys.left);
    keys.interact(press(Key::Right));
    assert!(keys.right);
    keys.interact(release(Key::Left));
    assert!(!keys.left);
    keys.interact(press(Key::Space));
    assert!(!keys.launch_trigger);
    keys.interact(release(Key::Space));
    assert!(keys.launch_trigger);
    keys.interact(press(Key::W));
    assert!(!keys.w_pressed);
    keys.interact(release(Key::W));
    keys.interact(release(Key::Return));
    assert!(keys.w_pressed && keys.enter_pressed && !keys.s_pressed);
    keys.interact(release(Key::S));
    assert!(keys.s_pressed);
}

#[test]
fn left_mouse_button_launches() {
    let mut keys = PlayerKeys::new();
    keys.input_interact(KeyState::Released, false);
    assert!(!keys.launch_trigger);
    keys.input_interact(KeyState::Released, true);
    assert!(keys.launch_trigger);
    keys.input_interact(KeyState::Pressed, true);
    assert!(!keys.launch_trigger);
}

#[test]
fn keyboard_handler_dispatches_to_registered_part() {
    let mut handler: KeyboardHandler<KeyboardInteractor> = KeyboardHandler::new();
    let gamma = handler.register(KeyboardInteractor::new(SettingsKind::Gamma));
    let hdr = handler.register(KeyboardInteractor::new(SettingsKind::Hdr));
    assert_eq!(gamma, 0);
    assert_eq!(hdr, 1);
    assert_eq!(handler.process_keyboard(release(Key::G)), Some(0));
    assert_eq!(handler.process_keyboard(press(Key::Q)), Some(1));
    assert_eq!(handler.process_keyboard(release(Key::W)), None);
    assert_eq!(handler.process_keyboard(KeyInput { keycode: None, state: KeyState::Pressed }), None);
}

#[test]
fn later_registration_takes_over_keys() {
    let mut handler: KeyboardHandler<KeyboardInteractor> = KeyboardHandler::new();
    handler.register(KeyboardInteractor::new(SettingsKind::Shadows));
    handler.register(KeyboardInteractor::new(SettingsKind::Bloom));
    assert_eq!(handler.process_keyboard(release(Key::F)), Some(1));
}

#[test]
fn settings_toggle_and_exposure() {
    let mut hdr = KeyboardInteractor::new(SettingsKind::Hdr);
    hdr.interact(press(Key::Q));
    assert_eq!(hdr.exposure_change, ExposureChange::Decrease);
    hdr.interact(press(Key::E));
    assert_eq!(hdr.exposure_change, ExposureChange::Increase);
    hdr.interact(release(Key::E));
    assert_eq!(hdr.exposure_change, ExposureChange::Keep);
    assert!(!hdr.flag);
    hdr.interact(release(Key::F));
    assert!(hdr.flag);
    hdr.interact(press(Key::F));
    assert!(hdr.flag);
    hdr.interact(release(Key::F));
    assert!(!hdr.flag);
    assert_eq!(hdr.interact_keycodes(), vec![Key::Q, Key::E, Key::F]);

    let mut gamma = KeyboardInteractor::new(SettingsKind::Gamma);
    gamma.interact(release(Key::G));
    assert!(gamma.flag);
    gamma.interact(press(Key::G));
    assert!(gamma.flag);
    assert_eq!(gamma.interact_keycodes(), vec![Key::G]);
}

#[test]
fn key_codes_are_distinct() {
    assert_ne!(Key::W.code(), Key::A.code());
    assert_ne!(Key::Escape.code(), Key::Other(0).code());
    assert_eq!(Key::Other(3).code(), 19);
}

#[test]
fn loop_steps() {
    assert_eq!(loop_step(LoopEvent::CloseRequested), LoopStep { exit: true, setup: false, deliver: true, render: false });
    assert_eq!(loop_step(LoopEvent::Init), LoopStep { exit: false, setup: true, deliver: true, render: true });
    assert_eq!(
        loop_step(LoopEvent::ResumeTimeReached),
        LoopStep { exit: false, setup: false, deliver: true, render: true }
    );
    assert!(loop_step(LoopEvent::Keyboard(release(Key::Escape))).exit);
    assert!(!loop_step(LoopEvent::Keyboard(press(Key::Escape))).exit);
    assert_eq!(loop_step(LoopEvent::Transient), LoopStep { exit: false, setup: false, deliver: false, render: true });
    assert_eq!(loop_step(LoopEvent::Other), LoopStep { exit: false, setup: false, deliver: true, render: false });
}

#[test]
fn frame_control_after_frame() {
    assert_eq!(frame_control(Action::Continue), FrameControl::WaitNanos(16_666_667));
    assert_eq!(FRAME_NANOS, 16_666_667);
    assert_eq!(frame_control(Action::Stop), FrameControl::Exit);
}

struct Counter {
    seen: u32,
}

impl EventHandler<u32> for Counter {
    fn handled(&self, event: &u32, after: &Self) -> bool {
        after.seen == self.seen + *event
    }

    fn handle_event(&mut self, event: &u32) {
        self.seen += *event;
    }
}

#[test]
fn loop_context_registry() {
    let mut ctx: LoopContext2D<Counter> = LoopContext2D::new();
    assert!(!ctx.contains_key("player"));
    ctx.register("player", Counter { seen: 0 });
    assert!(ctx.contains_key("player"));
    assert!(!ctx.contains_key("enemy"));
    ctx.register("enemy", Counter { seen: 10 });
    assert_eq!(ctx.get("enemy").seen, 10);
    ctx.handle_event(&5);
    assert!(Counter { seen: 0 }.handled(&5, ctx.get("player")));
    assert!(Counter { seen: 10 }.handled(&5, ctx.get("enemy")));
    assert_eq!(ctx.get("player").seen, 5);
    assert_eq!(ctx.get("enemy").seen, 15);
    ctx.get_mut("player").seen = 100;
    assert_eq!(ctx.get("player").seen, 100);
    ctx.register("player", Counter { seen: 1 });
    assert_eq!(ctx.get("player").seen, 1);
    assert_eq!(ctx.get("enemy").seen, 15);
}

#[test]
fn keyboard_register_by_name() {
    let mut reg: KeyboardRegister<KeyboardInteractor> = KeyboardRegister::new();
    reg.register("gamma".to_string(), KeyboardInteractor::new(SettingsKind::Gamma));
    reg.register("shadows".to_string(), KeyboardInteractor::new(SettingsKind::Shadows));
    assert_eq!(reg.handle_keyboard(release(Key::G)), Some("gamma".to_string()));
    assert!(reg.get("gamma").flag);
    assert!(!reg.get("shadows").flag);
    assert_eq!(reg.handle_keyboard(release(Key::F)), Some("shadows".to_string()));
    assert!(reg.get("shadows").flag);
    assert_eq!(reg.handle_keyboard(release(Key::Q)), None);
}

#[test]
fn launch_uses_up_trigger() {
    let mut keys = PlayerKeys::new();
    assert!(keys.launch(true));
    keys.interact(release(Key::Space));
    assert!(!keys.launch(true));
    assert!(!keys.launch_trigger);
    assert!(keys.launch(true));
    keys.input_interact(KeyState::Released, true);
    assert!(!keys.launch(false));
    assert!(!keys.launch_trigger);
}
