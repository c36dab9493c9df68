//! The sixteen-key keypad and the state of the key-wait protocol.
use vstd::prelude::*;

use crate::vm::VMError;

verus! {

/// One of the sixteen keys, `0` to `F`.
#[derive(Clone, Copy, Debug, PartialEq, Eq, Structural)]
pub enum Key {
    Key0,
    Key1,
    Key2,
    Key3,
    Key4,
    Key5,
    Key6,
    Key7,
    Key8,
    Key9,
    KeyA,
    KeyB,
    KeyC,
    KeyD,
    KeyE,
    KeyF,
}

/// The key whose code is `code`, for `code < 16`.
pub open spec fn key_of(code: u8) -> Key {
    match code {
        0 => Key::Key0,
        1 => Key::Key1,
        2 => Key::Key2,
        3 => Key::Key3,
        4 => Key::Key4,
        5 => Key::Key5,
        6 => Key::Key6,
        7 => Key::Key7,
        8 => Key::Key8,
        9 => Key::Key9,
        10 => Key::KeyA,
        11 => Key::KeyB,
        12 => Key::KeyC,
        13 => Key::KeyD,
        14 => Key::KeyE,
        _ => Key::KeyF,
    }
}

impl Key {
    pub open spec fn spec_code(self) -> u8 {
        match self {
            Key::Key0 => 0,
            Key::Key1 => 1,
            Key::Key2 => 2,
            Key::Key3 => 3,
            Key::Key4 => 4,
            Key::Key5 => 5,
            Key::Key6 => 6,
            Key::Key7 => 7,
            Key::Key8 => 8,
            Key::Key9 => 9,
            Key::KeyA => 10,
            Key::KeyB => 11,
            Key::KeyC => 12,
            Key::KeyD => 13,
            Key::KeyE => 14,
            Key::KeyF => 15,
        }
    }

    /// The key's code, `0` to `15`.
    #[verifier::when_used_as_spec(spec_code)]
    pub fn code(self) -> (r: u8)
        ensures
            r == self.code(),
            r < 16,
    {
        match self {
            Key::Key0 => 0,
            Key::Key1 => 1,
            Key::Key2 => 2,
            Key::Key3 => 3,
            Key::Key4 => 4,
            Key::Key5 => 5,
            Key::Key6 => 6,
            Key::Key7 => 7,
            Key::Key8 => 8,
            Key::Key9 => 9,
            Key::KeyA => 10,
            Key::KeyB => 11,
            Key::KeyC => 12,
            Key::KeyD => 13,
            Key::KeyE => 14,
            Key::KeyF => 15,
        }
    }
}

impl TryFrom<u8> for Key {
    type Error = VMError;

    fn try_from(value: u8) -> (r: Result<Key, VMError>) {
        match value {
            0x0 => Ok(Key::Key0),
            0x1 => Ok(Key::Key1),
            0x2 => Ok(Key::Key2),
            0x3 => Ok(Key::Key3),
            0x4 => Ok(Key::Key4),
            0x5 => Ok(Key::Key5),
            0x6 => Ok(Key::Key6),
            0x7 => Ok(Key::Key7),
            0x8 => Ok(Key::Key8),
            0x9 => Ok(Key::Key9),
            0xA => Ok(Key::KeyA),
            0xB => Ok(Key::KeyB),
            0xC => Ok(Key::KeyC),
            0xD => Ok(Key::KeyD),
            0xE => Ok(Key::KeyE),
            0xF => Ok(Key::KeyF),
            _ => Err(VMError::UnknownKey(value)),
        }
    }
}

impl vstd::std_specs::convert::TryFromSpecImpl<u8> for Key {
    open spec fn obeys_try_from_spec() -> bool {
        true
    }

    open spec fn try_from_spec(v: u8) -> Result<Key, VMError> {
        if v < 16 {
            Ok(key_of(v))
        } else {
            Err(VMError::UnknownKey(v))
        }
    }
}

/// Whether a key is held down.
#[derive(Clone, Copy, Debug, PartialEq, Eq, Structural)]
pub enum KeyState {
    NotPressed,
    Pressed,
}

/// The key-wait protocol: idle, waiting for a press whose code goes to the given register,
/// or waiting for the release of the given key code.
#[derive(Clone, Copy, Debug, PartialEq, Eq, Structural)]
pub enum KeyWait {
    NotWaiting,
    WaitingForPress(u8),
    WaitingForRelease(u8),
}

/// The state of the sixteen keys and of the key-wait protocol.
pub struct Keypad {
    state: Vec<KeyState>,
    wait_state: KeyWait,
}

impl Keypad {
    /// The state of each key, by key code.
    pub closed spec fn keys(&self) -> Seq<KeyState> {
        self.state@
    }

    pub closed spec fn spec_wait_state(&self) -> KeyWait {
        self.wait_state
    }

    pub open spec fn wf(&self) -> bool {
        self.keys().len() == 16
    }

    /// All keys up, nobody waiting.
    pub fn new() -> (k: Keypad)
        ensures
            k.wf(),
            k.keys() == Seq::new(16, |i: int| KeyState::NotPressed),
            k.wait_state() == KeyWait::NotWaiting,
    {
        let k = Keypad { state: vec![KeyState::NotPressed; 16], wait_state: KeyWait::NotWaiting };
        assert(k.keys() =~= Seq::new(16, |i: int| KeyState::NotPressed));
        k
    }

    /// Whether the key-wait protocol is in one of its waiting states.
    pub fn is_waiting(&self) -> (r: bool)
        ensures
            r == !(self.wait_state() is NotWaiting),
    {
        match self.wait_state {
            KeyWait::NotWaiting => false,
            KeyWait::WaitingForPress(_) => true,
            KeyWait::WaitingForRelease(_) => true,
        }
    }

    #[verifier::when_used_as_spec(spec_wait_state)]
    pub fn wait_state(&self) -> (r: KeyWait)
        ensures
            r == self.wait_state(),
    {
        self.wait_state
    }

    pub fn set_wait(&mut self, wait_state: KeyWait)
        ensures
            final(self).wait_state() == wait_state,
            final(self).keys() == old(self).keys(),
    {
        self.wait_state = wait_state
    }

    pub fn key_state(&self, key: Key) -> (r: KeyState)
        requires
            self.wf(),
        ensures
            r == self.keys()[key.code() as int],
    {
        self.state[key.code() as usize]
    }

    pub fn set_key_state(&mut self, key: Key, state: KeyState)
        requires
            old(self).wf(),
        ensures
            final(self).wf(),
            final(self).keys() == old(self).keys().update(key.code() as int, state),
            final(self).wait_state() == old(self).wait_state(),
    {
        self.state.set(key.code() as usize, state);
    }
}

} // verus!
