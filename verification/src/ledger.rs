use crate::principal::Principal;
use vstd::prelude::*;

verus! {

/// One ledger row: a principal and the kudos credited to it so far.
struct LedgerEntry {
    who: Principal,
    count: u32,
}

/// The mapping from principal identity to accumulated kudo count.
///
/// Keys are unique, insertion order carries no meaning, and the absence
/// of a key reads as a stored count of zero. The abstract value of a
/// ledger is the sequence of `(identity bytes, count)` rows it holds;
/// all observable behaviour is the per-identity count, `count_of`.
pub struct Ledger {
    entries: Vec<LedgerEntry>,
}

/// The abstract value of one row.
spec fn entry_model(e: LedgerEntry) -> (Seq<u8>, u32) {
    (e.who@, e.count)
}

/// The count recorded for `id` in the rows `s`: the count of the first
/// row keyed by `id`, or zero when no row is.
pub open spec fn count_in(s: Seq<(Seq<u8>, u32)>, id: Seq<u8>) -> u32
    decreases s.len(),
{
    if s.len() == 0 {
        0
    } else if s[0].0 == id {
        s[0].1
    } else {
        count_in(s.drop_first(), id)
    }
}

/// Whether some row of `s` is keyed by `id`.
pub open spec fn has_key(s: Seq<(Seq<u8>, u32)>, id: Seq<u8>) -> bool {
    exists|k: int| 0 <= k < s.len() && s[k].0 == id
}

/// Whether no two rows of `s` share a key.
pub open spec fn keys_unique(s: Seq<(Seq<u8>, u32)>) -> bool {
    forall|a: int, b: int| 0 <= a < b < s.len() ==> s[a].0 != s[b].0
}

/// An identity that no row carries reads as zero.
pub proof fn lemma_count_no_key(s: Seq<(Seq<u8>, u32)>, id: Seq<u8>)
    requires
        forall|k: int| 0 <= k < s.len() ==> s[k].0 != id,
    ensures
        count_in(s, id) == 0,
    decreases s.len(),
{
    if s.len() > 0 {
        assert forall|k: int| 0 <= k < s.drop_first().len() implies s.drop_first()[k].0 != id by {
            assert(s.drop_first()[k] == s[k + 1]);
        }
        lemma_count_no_key(s.drop_first(), id);
    }
}

/// The count for `id` is the count of its first matching row.
proof fn lemma_count_first_match(s: Seq<(Seq<u8>, u32)>, id: Seq<u8>, i: int)
    requires
        0 <= i < s.len(),
        s[i].0 == id,
        forall|k: int| 0 <= k < i ==> s[k].0 != id,
    ensures
        count_in(s, id) == s[i].1,
    decreases i,
{
    if i > 0 {
        assert(s.drop_first()[i - 1] == s[i]);
        assert forall|k: int| 0 <= k < i - 1 implies s.drop_first()[k].0 != id by {
            assert(s.drop_first()[k] == s[k + 1]);
        }
        lemma_count_first_match(s.drop_first(), id, i - 1);
    }
}

/// Replacing the first row keyed by `e.0` sets that key's count to `e.1`
/// and leaves every other key's count unchanged.
proof fn lemma_count_update(s: Seq<(Seq<u8>, u32)>, i: int, e: (Seq<u8>, u32), q: Seq<u8>)
    requires
        0 <= i < s.len(),
        s[i].0 == e.0,
        forall|k: int| 0 <= k < i ==> s[k].0 != e.0,
    ensures
        count_in(s.update(i, e), e.0) == e.1,
        q != e.0 ==> count_in(s.update(i, e), q) == count_in(s, q),
    decreases i,
{
    let t = s.update(i, e);
    if i == 0 {
        assert(t[0] == e);
        if q != e.0 {
            assert(t.drop_first() =~= s.drop_first());
        }
    } else {
        assert(t[0] == s[0]);
        assert(s[0].0 != e.0);
        assert(t.drop_first() =~= s.drop_first().update(i - 1, e));
        assert(s.drop_first()[i - 1] == s[i]);
        assert forall|k: int| 0 <= k < i - 1 implies s.drop_first()[k].0 != e.0 by {
            assert(s.drop_first()[k] == s[k + 1]);
        }
        lemma_count_update(s.drop_first(), i - 1, e, q);
    }
}

/// Appending a row changes no existing key, and gives the new row's key
/// its count when that key was absent before.
proof fn lemma_count_push(s: Seq<(Seq<u8>, u32)>, e: (Seq<u8>, u32), q: Seq<u8>)
    ensures
        count_in(s.push(e), q) == if has_key(s, q) {
            count_in(s, q)
        } else if e.0 == q {
            e.1
        } else {
            0
        },
    decreases s.len(),
{
    let t = s.push(e);
    if s.len() == 0 {
        assert(t[0] == e);
        if e.0 != q {
            assert(t.drop_first() =~= Seq::<(Seq<u8>, u32)>::empty());
            assert(count_in(Seq::<(Seq<u8>, u32)>::empty(), q) == 0);
        }
        assert(!has_key(s, q));
    } else {
        assert(t[0] == s[0]);
        if s[0].0 == q {
            assert(has_key(s, q)) by {
                assert(s[0].0 == q);
            }
        } else {
            assert(t.drop_first() =~= s.drop_first().push(e));
            lemma_count_push(s.drop_first(), e, q);
            if has_key(s, q) {
                let k = choose|k: int| 0 <= k < s.len() && s[k].0 == q;
                assert(s.drop_first()[k - 1] == s[k]);
                assert(has_key(s.drop_first(), q));
            } else {
                assert forall|k: int| 0 <= k < s.drop_first().len() implies s.drop_first()[k].0 != q by {
                    assert(s.drop_first()[k] == s[k + 1]);
                }
                assert(!has_key(s.drop_first(), q));
            }
        }
    }
}

impl View for Ledger {
    type V = Seq<(Seq<u8>, u32)>;

    closed spec fn view(&self) -> Seq<(Seq<u8>, u32)> {
        self.entries@.map_values(|e: LedgerEntry| entry_model(e))
    }
}

impl Ledger {
    /// Key uniqueness, the ledger's internal invariant.
    pub open spec fn wf(self) -> bool {
        keys_unique(self@)
    }

    /// The count the ledger holds for `id`, zero when `id` is absent.
    pub open spec fn count_of(self, id: Seq<u8>) -> u32 {
        count_in(self@, id)
    }

    /// The empty ledger: every identity reads as zero.
    pub fn new() -> (l: Ledger)
        ensures
            l@ == Seq::<(Seq<u8>, u32)>::empty(),
            l.wf(),
            forall|id: Seq<u8>| l.count_of(id) == 0,
    {
        let l = Ledger { entries: Vec::new() };
        proof {
            assert(l@ =~= Seq::<(Seq<u8>, u32)>::empty());
        }
        l
    }

    /// The index of the first row keyed by `p`, if any row is.
    fn find(&self, p: &Principal) -> (r: Option<usize>)
        ensures
            match r {
                Some(i) => i < self@.len() && self@[i as int].0 == p@ && forall|k: int|
                    0 <= k < i ==> self@[k].0 != p@,
                None => forall|k: int| 0 <= k < self@.len() ==> self@[k].0 != p@,
            },
    {
        let mut i: usize = 0;
        while i < self.entries.len()
            invariant
                i <= self.entries.len(),
                self@.len() == self.entries@.len(),
                forall|k: int| 0 <= k < i ==> self@[k].0 != p@,
            decreases self.entries.len() - i,
        {
            if self.entries[i].who.same_as(p) {
                proof {
                    assert(self@[i as int].0 == p@);
                }
                return Some(i);
            }
            i = i + 1;
        }
        None
    }

    /// The stored count for `p`, zero when `p` has no row.
    pub fn count(&self, p: &Principal) -> (c: u32)
        ensures
            c == self.count_of(p@),
    {
        match self.find(p) {
            Some(i) => {
                proof {
                    lemma_count_first_match(self@, p@, i as int);
                }
                self.entries[i].count
            },
            None => {
                proof {
                    lemma_count_no_key(self@, p@);
                }
                0
            },
        }
    }

    /// Records `count` for `p`, touching no other identity.
    pub fn set_count(&mut self, p: &Principal, count: u32)
        requires
            old(self).wf(),
        ensures
            final(self).wf(),
            final(self).count_of(p@) == count,
            forall|q: Seq<u8>| q != p@ ==> final(self).count_of(q) == old(self).count_of(q),
    {
        let ghost v1 = self@;
        match self.find(p) {
            Some(i) => {
                let row = LedgerEntry { who: p.duplicate(), count };
                self.entries.set(i, row);
                proof {
                    assert(self@ =~= v1.update(i as int, (p@, count)));
                    assert forall|q: Seq<u8>| q != p@ implies count_in(self@, q) == count_in(
                        v1,
                        q,
                    ) by {
                        lemma_count_update(v1, i as int, (p@, count), q);
                    }
                    lemma_count_update(v1, i as int, (p@, count), p@);
                    assert forall|a: int, b: int| 0 <= a < b < self@.len() implies self@[a].0
                        != self@[b].0 by {
                        assert(self@[a].0 == v1[a].0);
                        assert(self@[b].0 == v1[b].0);
                    }
                }
            },
            None => {
                self.entries.push(LedgerEntry { who: p.duplicate(), count });
                proof {
                    assert(self@ =~= v1.push((p@, count)));
                    lemma_count_no_key(v1, p@);
                    assert(!has_key(v1, p@));
                    lemma_count_push(v1, (p@, count), p@);
                    assert forall|q: Seq<u8>| q != p@ implies count_in(self@, q) == count_in(
                        v1,
                        q,
                    ) by {
                        lemma_count_push(v1, (p@, count), q);
                        if !has_key(v1, q) {
                            lemma_count_no_key(v1, q);
                        }
                    }
                    assert forall|a: int, b: int| 0 <= a < b < self@.len() implies self@[a].0
                        != self@[b].0 by {
                        if b < v1.len() {
                            assert(self@[a].0 == v1[a].0);
                            assert(self@[b].0 == v1[b].0);
                        } else {
                            assert(self@[a].0 == v1[a].0);
                            assert(self@[b].0 == p@);
                        }
                    }
                }
            },
        }
    }

    /// A fresh ledger holding the same rows.
    pub fn duplicate(&self) -> (l: Ledger)
        ensures
            l@ == self@,
    {
        let mut entries: Vec<LedgerEntry> = Vec::new();
        let mut i: usize = 0;
        while i < self.entries.len()
            invariant
                i <= self.entries.len(),
                entries@.len() == i,
                forall|k: int| 0 <= k < i ==> entry_model(entries@[k]) == entry_model(
                    self.entries@[k],
                ),
            decreases self.entries.len() - i,
        {
            let who = self.entries[i].who.duplicate();
            let count = self.entries[i].count;
            entries.push(LedgerEntry { who, count });
            i = i + 1;
        }
        let l = Ledger { entries };
        proof {
            assert(l@ =~= self@);
        }
        l
    }

    /// The number of rows.
    pub fn len(&self) -> (n: usize)
        ensures
            n == self@.len(),
    {
        self.entries.len()
    }

    /// The row at index `i`, as a fresh principal and its count.
    pub fn entry_at(&self, i: usize) -> (row: (Principal, u32))
        requires
            i < self@.len(),
        ensures
            row.0@ == self@[i as int].0,
            row.1 == self@[i as int].1,
    {
        (self.entries[i].who.duplicate(), self.entries[i].count)
    }
}

} // verus!
