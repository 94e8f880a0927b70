//! The parts of the libsensors binding that decide rather than call C: status codes,
//! bus types, chip names, feature and subfeature kinds, and chip enumeration.

use vstd::prelude::*;

pub mod chips;
pub mod error;
pub mod features;

verus! {

/// A handle to an initialised libsensors environment.
/// Only one may exist at a time; libsensors makes no claims as to thread safety.
#[derive(Debug)]
pub struct LibSensors {}

impl LibSensors {
    /// An iterator over all chips known to libsensors, starting at the first.
    pub fn get_chips(&self) -> (r: ChipIterator)
        ensures
            r.position() == 0,
    {
        ChipIterator::new()
    }
}

/// Walks the chips that libsensors detected, by index.
#[derive(Debug, Clone, Copy)]
pub struct ChipIterator {
    index: i32,
}

impl ChipIterator {
    pub closed spec fn position(&self) -> int {
        self.index as int
    }

    /// An iterator at the first chip.
    pub fn new() -> (r: ChipIterator)
        ensures
            r.position() == 0,
    {
        ChipIterator { index: 0 }
    }

    /// The index of the chip to ask libsensors for next.
    pub fn index(&self) -> (r: i32)
        ensures
            r as int == self.position(),
    {
        self.index
    }

    /// Records the answer to asking for the chip at [`Self::index`]: the iterator moves on
    /// only when a chip was found there, so that after the last chip it keeps returning nothing.
    pub fn record(&mut self, found: bool)
        requires
            old(self).position() < i32::MAX,
        ensures
            found ==> final(self).position() == old(self).position() + 1,
            !found ==> final(self).position() == old(self).position(),
    {
        if found {
            self.index = self.index + 1;
        }
    }
}

} // verus!
