//! Keyboard and mouse input, and the decisions that the camera, the player
//! and the main loop take on it.
use vstd::prelude::*;

verus! {

/// A key of the keyboard. The keys that the programs react to have their own
/// variant; any other key is `Other` with a number that tells keys apart.
#[derive(Clone, Copy, Debug, PartialEq, Eq, Structural)]
pub enum Key {
    W,
    A,
    S,
    D,
    Q,
    E,
    F,
    G,
    Up,
    Down,
    Left,
    Right,
    Space,
    LShift,
    Return,
    Escape,
    Other(u32),
}

/// Whether a key or button went down or up.
#[derive(Clone, Copy, Debug, PartialEq, Eq, Structural)]
pub enum KeyState {
    Pressed,
    Released,
}

/// A keyboard event: the key, where the system could name it, and its state.
#[derive(Clone, Copy, Debug, PartialEq, Eq, Structural)]
pub struct KeyInput {
    pub keycode: Option<Key>,
    pub state: KeyState,
}

/// A number for each key, distinct for distinct keys.
pub open spec fn spec_key_code(k: Key) -> u64 {
    match k {
        Key::W => 0,
        Key::A => 1,
        Key::S => 2,
        Key::D => 3,
        Key::Q => 4,
        Key::E => 5,
        Key::F => 6,
        Key::G => 7,
        Key::Up => 8,
        Key::Down => 9,
        Key::Left => 10,
        Key::Right => 11,
        Key::Space => 12,
        Key::LShift => 13,
        Key::Return => 14,
        Key::Escape => 15,
        Key::Other(n) => (16 + n) as u64,
    }
}

impl Key {
    /// The number of this key.
    pub fn code(&self) -> (c: u64)
        ensures
            c == spec_key_code(*self),
    {
        match self {
            Key::W => 0,
            Key::A => 1,
            Key::S => 2,
            Key::D => 3,
            Key::Q => 4,
            Key::E => 5,
            Key::F => 6,
            Key::G => 7,
            Key::Up => 8,
            Key::Down => 9,
            Key::Left => 10,
            Key::Right => 11,
            Key::Space => 12,
            Key::LShift => 13,
            Key::Return => 14,
            Key::Escape => 15,
            Key::Other(n) => 16 + *n as u64,
        }
    }
}

/// Distinct keys have distinct numbers.
pub proof fn lemma_key_code_injective(a: Key, b: Key)
    ensures
        spec_key_code(a) == spec_key_code(b) <==> a == b,
{
}

/// What the render loop does next.
#[derive(Clone, Copy, Debug, PartialEq, Eq, Structural)]
pub enum Action {
    Stop,
    Continue,
}

/// Releasing Escape stops the program; any other input leaves it running.
pub open spec fn spec_escape_action(input: KeyInput) -> Option<Action> {
    if input.keycode == Some(Key::Escape) && input.state == KeyState::Released {
        Some(Action::Stop)
    } else {
        None
    }
}

/// Stops the program when Escape is released.
pub fn escape_action(input: KeyInput) -> (r: Option<Action>)
    ensures
        r == spec_escape_action(input),
{
    match input.keycode {
        Some(Key::Escape) => {
            if input.state == KeyState::Released {
                Some(Action::Stop)
            } else {
                None
            }
        },
        _ => None,
    }
}

/// The movement keys that the camera follows, each held down or not.
#[derive(Clone, Copy, Debug, PartialEq, Eq, Structural)]
pub struct CameraKeys {
    pub forward: bool,
    pub backward: bool,
    pub left: bool,
    pub right: bool,
    pub up: bool,
    pub down: bool,
}

/// The movement keys after `key` went to `state`, and whether the camera
/// follows that key at all: W or Up moves forward, S or Down backward, A or
/// Left to the left, D or Right to the right, Space up and left Shift down.
pub open spec fn spec_camera_key(keys: CameraKeys, key: Key, state: KeyState) -> (CameraKeys, bool) {
    let held = state == KeyState::Pressed;
    match key {
        Key::W | Key::Up => (CameraKeys { forward: held, ..keys }, true),
        Key::S | Key::Down => (CameraKeys { backward: held, ..keys }, true),
        Key::A | Key::Left => (CameraKeys { left: held, ..keys }, true),
        Key::D | Key::Right => (CameraKeys { right: held, ..keys }, true),
        Key::Space => (CameraKeys { up: held, ..keys }, true),
        Key::LShift => (CameraKeys { down: held, ..keys }, true),
        _ => (keys, false),
    }
}

impl CameraKeys {
    /// No movement key held.
    pub fn new() -> (k: CameraKeys)
        ensures
            k == (CameraKeys {
                forward: false,
                backward: false,
                left: false,
                right: false,
                up: false,
                down: false,
            }),
    {
        CameraKeys { forward: false, backward: false, left: false, right: false, up: false, down: false }
    }

    /// Follows a key that went down or up; tells whether the camera uses it.
    pub fn process_keyboard(&mut self, key: Key, state: KeyState) -> (handled: bool)
        ensures
            (*final(self), handled) == spec_camera_key(*old(self), key, state),
            (key is W || key is Up) ==> handled && *final(self) == (CameraKeys {
                forward: state == KeyState::Pressed,
                ..*old(self)
            }),
            (key is S || key is Down) ==> handled && *final(self) == (CameraKeys {
                backward: state == KeyState::Pressed,
                ..*old(self)
            }),
            (key is A || key is Left) ==> handled && *final(self) == (CameraKeys {
                left: state == KeyState::Pressed,
                ..*old(self)
            }),
            (key is D || key is Right) ==> handled && *final(self) == (CameraKeys {
                right: state == KeyState::Pressed,
                ..*old(self)
            }),
            key is Space ==> handled && *final(self) == (CameraKeys {
                up: state == KeyState::Pressed,
                ..*old(self)
            }),
            key is LShift ==> handled && *final(self) == (CameraKeys {
                down: state == KeyState::Pressed,
                ..*old(self)
            }),
    {
        let held = state == KeyState::Pressed;
        match key {
            Key::W | Key::Up => {
                self.forward = held;
                true
            },
            Key::S | Key::Down => {
                self.backward = held;
                true
            },
            Key::A | Key::Left => {
                self.left = held;
                true
            },
            Key::D | Key::Right => {
                self.right = held;
                true
            },
            Key::Space => {
                self.up = held;
                true
            },
            Key::LShift => {
                self.down = held;
                true
            },
            _ => false,
        }
    }
}

/// A keyboard event for a program whose camera moves: the camera takes the
/// keys it uses; otherwise releasing Escape stops the program.
pub fn handle_keyboard_input(input: KeyInput, camera_keys: &mut CameraKeys) -> (r: Option<Action>)
    ensures
        input.keycode is None ==> r is None && *final(camera_keys) == *old(camera_keys),
        input.keycode matches Some(k) ==> {
            let (keys, handled) = spec_camera_key(*old(camera_keys), k, input.state);
            &&& *final(camera_keys) == keys
            &&& r == if handled {
                None
            } else {
                spec_escape_action(input)
            }
        },
{
    match input.keycode {
        None => None,
        Some(k) => {
            if camera_keys.process_keyboard(k, input.state) {
                None
            } else {
                escape_action(input)
            }
        },
    }
}

/// The keys and buttons that steer the paddle of the breakout game.
#[derive(Clone, Copy, Debug, PartialEq, Eq, Structural)]
pub struct PlayerKeys {
    /// A or Left held down.
    pub left: bool,
    /// D or Right held down.
    pub right: bool,
    /// The ball is to be launched.
    pub launch_trigger: bool,
    /// Return was released at least once.
    pub enter_pressed: bool,
    /// W was released at least once.
    pub w_pressed: bool,
    /// S was released at least once.
    pub s_pressed: bool,
}

/// The paddle keys after a keyboard event: A or Left sets `left` and D or
/// Right sets `right` to whether the key is down; Space sets the launch
/// trigger to whether it went up; releasing W, S or Return latches its flag.
pub open spec fn spec_player_key(keys: PlayerKeys, input: KeyInput) -> PlayerKeys {
    match input.keycode {
        None => keys,
        Some(k) => {
            let held = input.state == KeyState::Pressed;
            let released = input.state == KeyState::Released;
            let moved = if k == Key::A || k == Key::Left {
                PlayerKeys { left: held, ..keys }
            } else if k == Key::D || k == Key::Right {
                PlayerKeys { right: held, ..keys }
            } else if k == Key::Space {
                PlayerKeys { launch_trigger: released, ..keys }
            } else {
                keys
            };
            PlayerKeys {
                w_pressed: moved.w_pressed || (released && k == Key::W),
                s_pressed: moved.s_pressed || (released && k == Key::S),
                enter_pressed: moved.enter_pressed || (released && k == Key::Return),
                ..moved
            }
        },
    }
}

impl PlayerKeys {
    /// Nothing held, triggered or latched.
    pub fn new() -> (k: PlayerKeys)
        ensures
            k == (PlayerKeys {
                left: false,
                right: false,
                launch_trigger: false,
                enter_pressed: false,
                w_pressed: false,
                s_pressed: false,
            }),
    {
        PlayerKeys {
            left: false,
            right: false,
            launch_trigger: false,
            enter_pressed: false,
            w_pressed: false,
            s_pressed: false,
        }
    }

    /// The keys that the paddle reacts to.
    pub fn interact_keycodes(&self) -> (v: Vec<Key>)
        ensures
            v@ == seq![Key::A, Key::D, Key::Left, Key::Right, Key::Space, Key::W, Key::Return],
    {
        vec![Key::A, Key::D, Key::Left, Key::Right, Key::Space, Key::W, Key::Return]
    }

    /// Follows a keyboard event.
    pub fn interact(&mut self, input: KeyInput)
        ensures
            *final(self) == spec_player_key(*old(self), input),
            input.keycode matches Some(k) && (k is A || k is Left) ==> final(self).left == (input.state
                == KeyState::Pressed) && final(self).right == old(self).right,
            input.keycode matches Some(k) && (k is D || k is Right) ==> final(self).right == (input.state
                == KeyState::Pressed) && final(self).left == old(self).left,
            input.keycode matches Some(k) && !(k is A || k is Left || k is D || k is Right) ==> final(self).left
                == old(self).left && final(self).right == old(self).right,
    {
        let held = input.state == KeyState::Pressed;
        let released = input.state == KeyState::Released;
        if let Some(k) = input.keycode {
            if k == Key::A || k == Key::Left {
                self.left = held;
            } else if k == Key::D || k == Key::Right {
                self.right = held;
            } else if k == Key::Space {
                self.launch_trigger = released;
            }
            if released {
                if k == Key::W && !self.w_pressed {
                    self.w_pressed = true;
                } else if k == Key::S && !self.s_pressed {
                    self.s_pressed = true;
                } else if k == Key::Return && !self.enter_pressed {
                    self.enter_pressed = true;
                }
            }
        }
    }

    /// Uses up the launch trigger: a ball stuck to the paddle comes free when
    /// the trigger is set. Returns whether the ball is still stuck.
    pub fn launch(&mut self, ball_stuck: bool) -> (still_stuck: bool)
        ensures
            still_stuck == (ball_stuck && !old(self).launch_trigger),
            *final(self) == (PlayerKeys { launch_trigger: false, ..*old(self) }),
    {
        let still_stuck = ball_stuck && !self.launch_trigger;
        self.launch_trigger = false;
        still_stuck
    }

    /// Follows a mouse button: releasing the left button launches the ball,
    /// pressing it takes the trigger back; other buttons change nothing.
    pub fn input_interact(&mut self, state: KeyState, left_button: bool)
        ensures
            *final(self) == if left_button {
                PlayerKeys { launch_trigger: state == KeyState::Released, ..*old(self) }
            } else {
                *old(self)
            },
    {
        if left_button {
            self.launch_trigger = state == KeyState::Released;
        }
    }
}

/// A movement key changes only its own direction, to whether it is held
/// down: W or Up forward, S or Down backward, A or Left left, D or Right
/// right, Space up and left Shift down; the camera ignores every other key.
pub proof fn lemma_camera_key_moves_own_direction(keys: CameraKeys, key: Key, state: KeyState)
    ensures
        (key is W || key is Up) ==> spec_camera_key(keys, key, state).1 && spec_camera_key(keys, key, state).0
            == (CameraKeys { forward: state == KeyState::Pressed, ..keys }),
        (key is S || key is Down) ==> spec_camera_key(keys, key, state).1 && spec_camera_key(keys, key, state).0
            == (CameraKeys { backward: state == KeyState::Pressed, ..keys }),
        (key is A || key is Left) ==> spec_camera_key(keys, key, state).1 && spec_camera_key(keys, key, state).0
            == (CameraKeys { left: state == KeyState::Pressed, ..keys }),
        (key is D || key is Right) ==> spec_camera_key(keys, key, state).1 && spec_camera_key(keys, key, state).0
            == (CameraKeys { right: state == KeyState::Pressed, ..keys }),
        key is Space ==> spec_camera_key(keys, key, state).1 && spec_camera_key(keys, key, state).0
            == (CameraKeys { up: state == KeyState::Pressed, ..keys }),
        key is LShift ==> spec_camera_key(keys, key, state).1 && spec_camera_key(keys, key, state).0
            == (CameraKeys { down: state == KeyState::Pressed, ..keys }),
        !(key is W || key is Up || key is S || key is Down || key is A || key is Left || key is D || key is Right
            || key is Space || key is LShift) ==> !spec_camera_key(keys, key, state).1 && spec_camera_key(
            keys,
            key,
            state,
        ).0 == keys,
{
}

/// The paddle is steered by its own keys: A or Left sets `left` to whether
/// the key is held down and leaves `right` alone, D or Right sets `right`
/// and leaves `left` alone, and no other key or event moves the paddle.
/// Releasing Space, and nothing else, arms the launch.
pub proof fn lemma_player_key_steering(keys: PlayerKeys, input: KeyInput)
    ensures
        (input.keycode == Some(Key::A) || input.keycode == Some(Key::Left)) ==> spec_player_key(keys, input).left
            == (input.state == KeyState::Pressed) && spec_player_key(keys, input).right == keys.right,
        (input.keycode == Some(Key::D) || input.keycode == Some(Key::Right)) ==> spec_player_key(keys, input).right
            == (input.state == KeyState::Pressed) && spec_player_key(keys, input).left == keys.left,
        !(input.keycode == Some(Key::A) || input.keycode == Some(Key::Left) || input.keycode == Some(Key::D)
            || input.keycode == Some(Key::Right)) ==> spec_player_key(keys, input).left == keys.left
            && spec_player_key(keys, input).right == keys.right,
        input.keycode == Some(Key::Space) ==> spec_player_key(keys, input).launch_trigger == (input.state
            == KeyState::Released),
        !(input.keycode == Some(Key::Space)) ==> spec_player_key(keys, input).launch_trigger
            == keys.launch_trigger,
{
}

} // verus!
