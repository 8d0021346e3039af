use crate::ledger::{count_in, keys_unique, Ledger};
use vstd::prelude::*;

verus! {

/// A failure of the durable medium backing the store.
#[derive(Clone, Copy, Debug, PartialEq, Eq, Structural)]
pub enum StoreError {
    /// The durable medium rejected the snapshot write.
    WriteFailed,
}

/// The durable medium's verdict on one snapshot write, reported by the
/// environment that hosts the store (quota, corruption or
/// unavailability make it reject).
#[derive(Clone, Copy, Debug, PartialEq, Eq, Structural)]
pub enum WriteOutcome {
    /// The medium accepted and durably recorded the snapshot.
    Accepted,
    /// The medium rejected the write; the prior snapshot stands.
    Rejected,
}

/// Durable, atomic, whole-snapshot storage for the ledger.
///
/// The store holds at most one record: the ledger snapshot that the
/// last accepted `save` put there. Before any snapshot was ever
/// persisted, `load` yields the empty ledger, so every count reads as
/// zero. A `save` replaces the snapshot as a whole or not at all: a
/// reader observes either the fully old or the fully new snapshot.
pub struct LedgerStore {
    record: Option<Ledger>,
}

impl LedgerStore {
    /// The rows of the current durable snapshot; empty before any save.
    pub closed spec fn snapshot(self) -> Seq<(Seq<u8>, u32)> {
        match self.record {
            Option::Some(l) => l@,
            Option::None => Seq::empty(),
        }
    }

    /// Key uniqueness of the durable snapshot.
    pub open spec fn wf(self) -> bool {
        keys_unique(self.snapshot())
    }

    /// The durable count for `id`, zero when `id` is absent.
    pub open spec fn count_of(self, id: Seq<u8>) -> u32 {
        count_in(self.snapshot(), id)
    }

    /// A store that has never persisted a snapshot: every identity
    /// reads as zero.
    pub fn new() -> (s: LedgerStore)
        ensures
            s.snapshot() == Seq::<(Seq<u8>, u32)>::empty(),
            s.wf(),
            forall|id: Seq<u8>| s.count_of(id) == 0,
    {
        LedgerStore { record: None }
    }

    /// The current ledger snapshot, or the empty ledger if none has
    /// ever been persisted.
    pub fn load(&self) -> (l: Ledger)
        ensures
            l@ == self.snapshot(),
            self.wf() ==> l.wf(),
    {
        match &self.record {
            Some(l) => l.duplicate(),
            None => Ledger::new(),
        }
    }

    /// Persists `ledger` as the whole new snapshot, replacing any prior
    /// one, if the durable medium accepts the write; a rejected write
    /// fails and leaves the prior snapshot untouched.
    pub fn save(&mut self, ledger: Ledger, medium: WriteOutcome) -> (r: Result<(), StoreError>)
        ensures
            medium == WriteOutcome::Accepted ==> r == Ok::<(), StoreError>(())
                && final(self).snapshot() == ledger@,
            medium == WriteOutcome::Rejected ==> r == Err::<(), StoreError>(StoreError::WriteFailed)
                && *final(self) == *old(self),
    {
        match medium {
            WriteOutcome::Accepted => {
                self.record = Some(ledger);
                Ok(())
            },
            WriteOutcome::Rejected => Err(StoreError::WriteFailed),
        }
    }
}

} // verus!
