//! Keyboard: 16 boolean key states plus the one-shot "wait for keypress"
//! latch used by the blocking key-input opcode.
//!
//! The key states are overwritten once per CPU cycle from the external input
//! source. The latch implements the blocking opcode as a non-blocking
//! poll-and-retry: the first poll arms the wait, a pushed key is recorded
//! while armed, and the next poll consumes it.

use vstd::prelude::*;

verus! {

pub struct Keyboard {
    pub keys: [bool; 16],
    pub kp: Option<u8>,
    pub kp_wait: bool,
}

impl Keyboard {
    pub fn new() -> (kb: Self)
        ensures
            forall|k: int| 0 <= k < 16 ==> !kb.keys@[k],
            kb.kp is None,
            !kb.kp_wait,
    {
        Self { keys: [false; 16], kp: None, kp_wait: false }
    }

    /// Overwrite all 16 key states at once.
    pub fn set_keys(&mut self, keys: [bool; 16])
        ensures
            final(self).keys == keys,
            final(self).kp == old(self).kp,
            final(self).kp_wait == old(self).kp_wait,
    {
        self.keys = keys;
    }

    pub fn get_key(&self, key: u8) -> (down: bool)
        requires
            key < 16,
        ensures
            down == self.keys@[key as int],
    {
        self.keys[key as usize]
    }

    /// Record a key press while a blocking wait is armed; ignored otherwise.
    pub fn push_keypress(&mut self, key: u8)
        ensures
            final(self).kp == if old(self).kp_wait {
                Some(key)
            } else {
                old(self).kp
            },
            final(self).keys == old(self).keys,
            final(self).kp_wait == old(self).kp_wait,
    {
        if self.kp_wait {
            self.kp = Some(key);
        }
    }

    /// The arm/consume protocol of the blocking key-input opcode: the first
    /// call arms the wait and returns nothing; once armed, a recorded key
    /// press is consumed and the latch cleared.
    pub fn wait_keypress(&mut self) -> (r: Option<u8>)
        ensures
            final(self).keys == old(self).keys,
            old(self).kp_wait && old(self).kp is Some ==> {
                &&& r == old(self).kp
                &&& final(self).kp is None
                &&& !final(self).kp_wait
            },
            old(self).kp_wait && old(self).kp is None ==> {
                &&& r is None
                &&& final(self).kp is None
                &&& final(self).kp_wait
            },
            !old(self).kp_wait ==> {
                &&& r is None
                &&& final(self).kp is None
                &&& final(self).kp_wait
            },
    {
        if self.kp_wait {
            match self.kp {
                Some(key) => {
                    self.kp = None;
                    self.kp_wait = false;
                    Some(key)
                },
                None => None,
            }
        } else {
            self.kp = None;
            self.kp_wait = true;
            None
        }
    }
}

} // verus!
