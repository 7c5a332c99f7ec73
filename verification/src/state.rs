//! The shared holder of the latest raw reading.
//!
//! Exactly one writer (the ingestion loop) replaces the reading; any
//! number of readers take snapshots. `read` returns the one stored
//! `RawReading` whole, so a snapshot can never mix the fields of two
//! different writes; `write` replaces both fields together. The
//! process-level lock that lets threads share a `SharedState` lives
//! outside the verified library.

use vstd::prelude::*;

verus! {

/// One captured sensor reading: a primary quantity and a secondary
/// one, in nano-units. Immutable once captured; a later reading
/// supersedes it whole.
#[derive(Clone, Copy, Debug, PartialEq, Eq, Structural)]
pub struct RawReading {
    pub humidity: i64,
    pub temperature: i64,
}

/// Synchronized holder of the current reading.
pub struct SharedState {
    reading: RawReading,
}

impl SharedState {
    /// The reading a snapshot would return now.
    pub closed spec fn current(&self) -> RawReading {
        self.reading
    }

    pub fn new(initial: RawReading) -> (s: SharedState)
        ensures
            s.current() == initial,
    {
        SharedState { reading: initial }
    }

    /// Replace the current reading; the sole mutator. Both fields
    /// change together: no later snapshot can see one without the
    /// other.
    pub fn write(&mut self, reading: RawReading)
        ensures
            final(self).current() == reading,
    {
        self.reading = reading;
    }

    /// Snapshot: the current reading, returned whole — always the
    /// value of one single `write`, never a mix of two.
    pub fn read(&self) -> (r: RawReading)
        ensures
            r == self.current(),
    {
        self.reading
    }
}

/// Snapshot-consistency law: a read after a write returns exactly the
/// written reading, both fields from that one write.
pub proof fn lemma_snapshot_consistency(s: SharedState, w: RawReading)
    requires
        s.current() == w,
    ensures
        s.current().humidity == w.humidity && s.current().temperature == w.temperature,
{
}

} // verus!
