//! Keyboard switches of the lighting demos: a flag toggled by a key, and in
//! some demos an exposure stepped down and up with Q and E.
use vstd::prelude::*;
use crate::input::{Key, KeyInput, KeyState, CameraKeys, PlayerKeys, spec_camera_key, spec_player_key};
use crate::keyboard::KeyboardInteract;

verus! {

/// Which demo the switches belong to, and so which flag they toggle.
#[derive(Clone, Copy, Debug, PartialEq, Eq, Structural)]
pub enum SettingsKind {
    /// G toggles gamma correction.
    Gamma,
    /// F toggles shadows.
    Shadows,
    /// F toggles HDR; Q and E step the exposure.
    Hdr,
    /// F toggles bloom; Q and E step the exposure.
    Bloom,
}

/// A step of the exposure that the program applies.
#[derive(Clone, Copy, Debug, PartialEq, Eq, Structural)]
pub enum ExposureChange {
    /// Leave the exposure as it is.
    Keep,
    /// Lower the exposure by a step, but not below zero.
    Decrease,
    /// Raise the exposure by a step.
    Increase,
}

/// The keyboard switches of a demo.
#[derive(Clone, Copy, Debug, PartialEq, Eq, Structural)]
pub struct KeyboardInteractor {
    pub kind: SettingsKind,
    /// The toggled flag; it starts off.
    pub flag: bool,
    /// The exposure step that the last event asks for.
    pub exposure_change: ExposureChange,
}

/// The keys that the switches of a demo react to.
pub open spec fn spec_settings_keys(kind: SettingsKind) -> Seq<Key> {
    match kind {
        SettingsKind::Gamma => seq![Key::G],
        SettingsKind::Shadows => seq![Key::F],
        _ => seq![Key::Q, Key::E, Key::F],
    }
}

/// The switches after an event: in the gamma and shadow demos any key that
/// goes up toggles the flag; in the HDR and bloom demos F going up toggles
/// it, and Q or E going down asks for a lower or a higher exposure.
pub open spec fn spec_settings_interact(s: KeyboardInteractor, input: KeyInput) -> KeyboardInteractor {
    let released = input.state == KeyState::Released;
    let pressed = input.state == KeyState::Pressed;
    match s.kind {
        SettingsKind::Gamma | SettingsKind::Shadows => KeyboardInteractor {
            flag: if released {
                !s.flag
            } else {
                s.flag
            },
            exposure_change: ExposureChange::Keep,
            ..s
        },
        _ => KeyboardInteractor {
            flag: if released && input.keycode == Some(Key::F) {
                !s.flag
            } else {
                s.flag
            },
            exposure_change: if pressed && input.keycode == Some(Key::Q) {
                ExposureChange::Decrease
            } else if pressed && input.keycode == Some(Key::E) {
                ExposureChange::Increase
            } else {
                ExposureChange::Keep
            },
            ..s
        },
    }
}

impl KeyboardInteractor {
    /// The switches of a demo, with the flag off.
    pub fn new(kind: SettingsKind) -> (s: KeyboardInteractor)
        ensures
            s == (KeyboardInteractor { kind, flag: false, exposure_change: ExposureChange::Keep }),
    {
        KeyboardInteractor { kind, flag: false, exposure_change: ExposureChange::Keep }
    }
}

impl KeyboardInteract for KeyboardInteractor {
    open spec fn spec_keycodes(&self) -> Seq<Key> {
        spec_settings_keys(self.kind)
    }

    open spec fn interacted(&self, input: KeyInput, after: &Self) -> bool {
        *after == spec_settings_interact(*self, input)
    }

    fn init(&self) {
    }

    fn interact_keycodes(&self) -> (v: Vec<Key>) {
        match self.kind {
            SettingsKind::Gamma => vec![Key::G],
            SettingsKind::Shadows => vec![Key::F],
            _ => vec![Key::Q, Key::E, Key::F],
        }
    }

    fn interact(&mut self, input: KeyInput)
        ensures
            *final(self) == spec_settings_interact(*old(self), input),
    {
        let released = input.state == KeyState::Released;
        let pressed = input.state == KeyState::Pressed;
        match self.kind {
            SettingsKind::Gamma | SettingsKind::Shadows => {
                if released {
                    self.flag = !self.flag;
                }
                self.exposure_change = ExposureChange::Keep;
            },
            _ => {
                let is_f = match input.keycode {
                    Some(Key::F) => true,
                    _ => false,
                };
                let is_q = match input.keycode {
                    Some(Key::Q) => true,
                    _ => false,
                };
                let is_e = match input.keycode {
                    Some(Key::E) => true,
                    _ => false,
                };
                if released && is_f {
                    self.flag = !self.flag;
                }
                self.exposure_change = if pressed && is_q {
                    ExposureChange::Decrease
                } else if pressed && is_e {
                    ExposureChange::Increase
                } else {
                    ExposureChange::Keep
                };
            },
        }
    }
}

impl KeyboardInteract for CameraKeys {
    open spec fn spec_keycodes(&self) -> Seq<Key> {
        seq![Key::Up, Key::Down, Key::Left, Key::Right, Key::Space, Key::LShift]
    }

    open spec fn interacted(&self, input: KeyInput, after: &Self) -> bool {
        match input.keycode {
            Some(k) => *after == spec_camera_key(*self, k, input.state).0,
            None => *after == *self,
        }
    }

    fn init(&self) {
    }

    fn interact_keycodes(&self) -> (v: Vec<Key>) {
        vec![Key::Up, Key::Down, Key::Left, Key::Right, Key::Space, Key::LShift]
    }

    fn interact(&mut self, input: KeyInput)
        ensures
            input.keycode matches Some(k) ==> *final(self) == spec_camera_key(
                *old(self),
                k,
                input.state,
            ).0,
            input.keycode is None ==> *final(self) == *old(self),
    {
        if let Some(k) = input.keycode {
            self.process_keyboard(k, input.state);
        }
    }
}

impl KeyboardInteract for PlayerKeys {
    open spec fn spec_keycodes(&self) -> Seq<Key> {
        seq![Key::A, Key::D, Key::Left, Key::Right, Key::Space, Key::W, Key::Return]
    }

    open spec fn interacted(&self, input: KeyInput, after: &Self) -> bool {
        *after == spec_player_key(*self, input)
    }

    fn init(&self) {
    }

    fn interact_keycodes(&self) -> (v: Vec<Key>) {
        PlayerKeys::interact_keycodes(self)
    }

    fn interact(&mut self, input: KeyInput)
        ensures
            *final(self) == spec_player_key(*old(self), input),
    {
        PlayerKeys::interact(self, input)
    }
}

} // verus!
