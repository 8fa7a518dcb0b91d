//! One slot of the shared transposition table: two words that other search
//! threads may read and write at any time.
use vstd::prelude::*;
use std::sync::atomic::AtomicU64;
use std::sync::atomic::Ordering;

verus! {


/// A table slot: the packed entry and the key xor the packed entry.
/// The words are `std` atomics that several search threads read and write
/// at once, so nothing is stated about the values a slot holds or reads back.
pub struct Slot {
    key_xor_data: AtomicU64,
    data: AtomicU64,
}

impl Slot {
    /// An empty slot (both words zero).
    pub fn empty() -> Slot {
        Slot { key_xor_data: AtomicU64::new(0), data: AtomicU64::new(0) }
    }

    /// Reads the two words `(key_xor_data, data)`.  Other threads may write
    /// the slot at any time, so nothing is known of the values read.
    pub fn read(&self) -> (u64, u64) {
        let data = self.data.load(Ordering::Relaxed);
        let key_xor_data = self.key_xor_data.load(Ordering::Relaxed);
        (key_xor_data, data)
    }

    /// Reads the packed entry word only.
    pub fn read_data(&self) -> u64 {
        self.data.load(Ordering::Relaxed)
    }

    /// Reads the key-xor-data word only.
    pub fn read_key_xor_data(&self) -> u64 {
        self.key_xor_data.load(Ordering::Relaxed)
    }

    /// Writes the entry word, then the key-xor-data word.
    pub fn write(&self, key_xor_data: u64, data: u64) {
        self.data.store(data, Ordering::Relaxed);
        self.key_xor_data.store(key_xor_data, Ordering::Relaxed);
    }
}

} // verus!
