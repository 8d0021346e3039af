use crate::principal::Principal;
use crate::store::{LedgerStore, StoreError, WriteOutcome};
use vstd::prelude::*;

verus! {

/// Why a kudo operation failed.
#[derive(Clone, Copy, Debug, PartialEq, Eq, Structural)]
pub enum KudoError {
    /// The caller did not prove control of the crediting principal.
    Unauthorized,
    /// The recipient's count is already at the maximum representable
    /// value, so one more credit cannot be recorded.
    ArithmeticOverflow,
    /// The durable medium failed while persisting the new snapshot.
    Store(StoreError),
}

/// The outcome of the host's capability check: whether the invoking
/// party proved control of the crediting principal. The check itself is
/// the host's; the service consumes its result.
#[derive(Clone, Copy, Debug, PartialEq, Eq, Structural)]
pub enum AuthOutcome {
    /// The caller proved control of the principal.
    Proved,
    /// No valid proof of control was presented.
    Denied,
}

/// The structured observability record of one successful credit,
/// returned to the caller for best-effort audit emission.
#[derive(Debug)]
pub struct AuditEvent {
    pub from: Principal,
    pub to: Principal,
}

/// The ledger service: the authorization gate on mutation and the
/// orchestration of reads and writes against the store. It holds no
/// state of its own; the store is handed in by the host.
pub struct KudoBankContract;

impl KudoBankContract {
    /// Credits one kudo from `from` to `to`.
    ///
    /// The credit happens exactly when the caller proved control of
    /// `from`, the recipient's count is below the maximum, and the
    /// durable medium accepts the new snapshot; it then raises `to`'s
    /// count by exactly one and changes no other count. On any failure
    /// the store is left unchanged, and the error says which gate
    /// refused: `Unauthorized` without proof of control,
    /// `ArithmeticOverflow` at the counter's maximum, and a store error
    /// for a rejected write. Self-crediting (`from` equal to `to`) is
    /// permitted.
    pub fn give_kudos(
        store: &mut LedgerStore,
        from: &Principal,
        to: &Principal,
        auth: AuthOutcome,
        medium: WriteOutcome,
    ) -> (r: Result<AuditEvent, KudoError>)
        requires
            old(store).wf(),
        ensures
            final(store).wf(),
            r is Err ==> *final(store) == *old(store),
            auth == AuthOutcome::Denied ==> r == Err::<AuditEvent, KudoError>(
                KudoError::Unauthorized,
            ),
            auth == AuthOutcome::Proved && old(store).count_of(to@) == u32::MAX ==> r == Err::<
                AuditEvent,
                KudoError,
            >(KudoError::ArithmeticOverflow),
            auth == AuthOutcome::Proved && old(store).count_of(to@) < u32::MAX && medium
                == WriteOutcome::Rejected ==> r == Err::<AuditEvent, KudoError>(
                KudoError::Store(StoreError::WriteFailed),
            ),
            auth == AuthOutcome::Proved && old(store).count_of(to@) < u32::MAX && medium
                == WriteOutcome::Accepted ==> {
                &&& r is Ok
                &&& final(store).count_of(to@) == old(store).count_of(to@) + 1
                &&& forall|q: Seq<u8>|
                    q != to@ ==> final(store).count_of(q) == old(store).count_of(q)
            },
            r matches Ok(event) ==> event.from@ == from@ && event.to@ == to@,
    {
        match auth {
            AuthOutcome::Denied => {
                return Err(KudoError::Unauthorized);
            },
            AuthOutcome::Proved => {},
        }
        let mut working = store.load();
        let ghost loaded = working;
        let current = working.count(to);
        if current == u32::MAX {
            return Err(KudoError::ArithmeticOverflow);
        }
        working.set_count(to, current + 1);
        let ghost credited = working;
        match store.save(working, medium) {
            Ok(()) => {
                proof {
                    assert forall|q: Seq<u8>| q != to@ implies store.count_of(q) == old(
                        store,
                    ).count_of(q) by {
                        assert(credited.count_of(q) == loaded.count_of(q));
                    }
                    assert(store.count_of(to@) == old(store).count_of(to@) + 1);
                }
                Ok(AuditEvent { from: from.duplicate(), to: to.duplicate() })
            },
            Err(e) => Err(KudoError::Store(e)),
        }
    }

    /// The accumulated kudo count for `user`: the stored count, or zero
    /// for a principal the ledger has never recorded. A pure read; no
    /// authorization is required.
    pub fn get_kudos(store: &LedgerStore, user: &Principal) -> (c: u32)
        ensures
            c == store.count_of(user@),
    {
        let working = store.load();
        working.count(user)
    }
}

/// Default-zero, preserved across credits: an identity that reads zero
/// and is not the recipient of a credit still reads zero after it.
/// Together with `LedgerStore::new`, under which every identity reads
/// zero, a principal never credited always reads zero.
pub proof fn lemma_uncredited_reads_zero(
    pre: LedgerStore,
    post: LedgerStore,
    id: Seq<u8>,
    to: Seq<u8>,
)
    requires
        pre.count_of(id) == 0,
        id != to,
        forall|q: Seq<u8>| q != to ==> post.count_of(q) == pre.count_of(q),
    ensures
        post.count_of(id) == 0,
{
    assert(post.count_of(id) == pre.count_of(id));
}

/// Idempotent reads: `get_kudos` returns exactly the stored count, so
/// any two reads of the same store, with no mutation between them,
/// return identical values.
pub proof fn lemma_repeated_reads_agree(store: LedgerStore, id: Seq<u8>, first: u32, second: u32)
    requires
        first == store.count_of(id),
        second == store.count_of(id),
    ensures
        first == second,
{
}

} // verus!
