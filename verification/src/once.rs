//! A cell that is written at most once and read many times.

use vstd::prelude::*;

verus! {

/// The content of a slot after an attempt to write `value` into it: what it
/// held, or `value` where it held nothing.
pub open spec fn spec_write<T>(slot: Option<T>, value: T) -> Option<T> {
    match slot {
        Some(first) => Some(first),
        None => Some(value),
    }
}

/// A slot that accepts a value on the first write only. Every later write
/// is dropped and leaves the slot as it was.
#[derive(Debug)]
pub struct WriteOnce<T> {
    value: Option<T>,
}

impl<T> View for WriteOnce<T> {
    type V = Option<T>;

    closed spec fn view(&self) -> Option<T> {
        self.value
    }
}

impl<T> WriteOnce<T> {
    /// An empty slot.
    pub fn new() -> (slot: Self)
        ensures
            slot@ is None,
    {
        WriteOnce { value: None }
    }

    /// Whether a value has been written.
    pub fn is_set(&self) -> (set: bool)
        ensures
            set == (self@ is Some),
    {
        self.value.is_some()
    }

    /// The value written first, if any.
    pub fn get(&self) -> (value: Option<&T>)
        ensures
            match value {
                Some(held) => self@ == Some(*held),
                None => self@ is None,
            },
    {
        self.value.as_ref()
    }

    /// Writes `value` if the slot is empty and says whether it did.
    pub fn try_set(&mut self, value: T) -> (written: bool)
        ensures
            written == (old(self)@ is None),
            final(self)@ == spec_write(old(self)@, value),
    {
        if self.value.is_none() {
            self.value = Some(value);
            true
        } else {
            false
        }
    }

    /// Writes `value` if the slot is empty, and hands back what the slot
    /// holds after that: `value` on the first write, the first value on
    /// every later one.
    pub fn get_or_init(&mut self, value: T) -> (held: &T)
        ensures
            final(self)@ == spec_write(old(self)@, value),
            final(self)@ == Some(*held),
    {
        if self.value.is_none() {
            self.value = Some(value);
        }
        self.value.as_ref().unwrap()
    }
}

/// A first write fixes the slot: whatever is written after it, the slot
/// holds what the first write left.
pub proof fn lemma_first_write_wins<T>(slot: Option<T>, first: T, second: T)
    ensures
        spec_write(spec_write(slot, first), second) == spec_write(slot, first),
        spec_write(slot, first) is Some,
        slot is None ==> spec_write(slot, first) == Some(first),
        slot is Some ==> spec_write(slot, first) == slot,
{
}

} // verus!
