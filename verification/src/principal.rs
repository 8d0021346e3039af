use vstd::prelude::*;

verus! {

/// An opaque, externally verifiable identity: the raw bytes of a
/// cryptographic account identifier. A principal is immutable once
/// constructed, and equality is by identity value.
#[derive(Debug)]
pub struct Principal {
    id: Vec<u8>,
}

impl View for Principal {
    type V = Seq<u8>;

    closed spec fn view(&self) -> Seq<u8> {
        self.id@
    }
}

impl Principal {
    /// Wraps the given identity bytes as a principal.
    pub fn new(id: Vec<u8>) -> (p: Principal)
        ensures
            p@ == id@,
    {
        Principal { id }
    }

    /// A fresh principal value carrying the same identity bytes.
    pub fn duplicate(&self) -> (p: Principal)
        ensures
            p@ == self@,
    {
        let mut bytes: Vec<u8> = Vec::new();
        let mut i: usize = 0;
        while i < self.id.len()
            invariant
                i <= self.id.len(),
                bytes@ == self.id@.subrange(0, i as int),
            decreases self.id.len() - i,
        {
            bytes.push(self.id[i]);
            i = i + 1;
            proof {
                assert(bytes@ =~= self.id@.subrange(0, i as int));
            }
        }
        proof {
            assert(bytes@ =~= self.id@);
        }
        Principal { id: bytes }
    }

    /// Whether this principal carries the same identity as `other`.
    pub fn same_as(&self, other: &Principal) -> (r: bool)
        ensures
            r == (self@ == other@),
    {
        if self.id.len() != other.id.len() {
            return false;
        }
        let mut i: usize = 0;
        while i < self.id.len()
            invariant
                i <= self.id.len(),
                self.id@.len() == other.id@.len(),
                forall|k: int| 0 <= k < i ==> self.id@[k] == other.id@[k],
            decreases self.id.len() - i,
        {
            if self.id[i] != other.id[i] {
                return false;
            }
            i = i + 1;
        }
        proof {
            assert(self.id@ =~= other.id@);
        }
        true
    }

    /// The identity bytes of this principal.
    pub fn bytes(&self) -> (b: &Vec<u8>)
        ensures
            b@ == self@,
    {
        &self.id
    }
}

} // verus!
