//! The 16-key input state: a fixed array of booleans with bounds-checked
//! accessors, mutated by host key events and read by the key-test opcodes.

use crate::errors::InputError;
use vstd::prelude::*;

verus! {

broadcast use vstd::array::group_array_axioms;

/// Number of keys of the pad.
pub const KEY_COUNT: usize = 16;

/// One boolean per key; `true` means the key is held down.
pub struct Input {
    pub keys: [bool; KEY_COUNT],
}

impl View for Input {
    type V = Seq<bool>;

    open spec fn view(&self) -> Seq<bool> {
        self.keys@
    }
}

impl Input {
    /// All keys released.
    pub fn new() -> (r: Self)
        ensures
            r@.len() == KEY_COUNT,
            forall|k: int| 0 <= k < r@.len() ==> !r@[k],
    {
        Self { keys: [false; KEY_COUNT] }
    }

    /// Marks a key as held down; fails without mutating anything when the
    /// index is not a key.
    pub fn key_down(&mut self, index: u8) -> (r: Result<(), InputError>)
        ensures
            final(self)@.len() == old(self)@.len(),
            index < KEY_COUNT ==> r == Ok::<(), InputError>(()) && final(self)@ == old(
                self,
            )@.update(index as int, true),
            index >= KEY_COUNT ==> r == Err::<(), InputError>(
                InputError::OutOfBounds { index, size: KEY_COUNT },
            ) && final(self)@ == old(self)@,
    {
        if index >= KEY_COUNT as u8 {
            return Err(InputError::OutOfBounds { index, size: KEY_COUNT });
        }
        self.keys[index as usize] = true;
        Ok(())
    }

    /// Marks a key as released; fails without mutating anything when the
    /// index is not a key.
    pub fn key_up(&mut self, index: u8) -> (r: Result<(), InputError>)
        ensures
            final(self)@.len() == old(self)@.len(),
            index < KEY_COUNT ==> r == Ok::<(), InputError>(()) && final(self)@ == old(
                self,
            )@.update(index as int, false),
            index >= KEY_COUNT ==> r == Err::<(), InputError>(
                InputError::OutOfBounds { index, size: KEY_COUNT },
            ) && final(self)@ == old(self)@,
    {
        if index >= KEY_COUNT as u8 {
            return Err(InputError::OutOfBounds { index, size: KEY_COUNT });
        }
        self.keys[index as usize] = false;
        Ok(())
    }

    /// Whether a key is held down; fails when the index is not a key.
    pub fn is_key_down(&self, index: u8) -> (r: Result<bool, InputError>)
        ensures
            index < KEY_COUNT ==> r == Ok::<bool, InputError>(self@[index as int]),
            index >= KEY_COUNT ==> r == Err::<bool, InputError>(
                InputError::OutOfBounds { index, size: KEY_COUNT },
            ),
    {
        if index >= KEY_COUNT as u8 {
            return Err(InputError::OutOfBounds { index, size: KEY_COUNT });
        }
        Ok(self.keys[index as usize])
    }
}

} // verus!
