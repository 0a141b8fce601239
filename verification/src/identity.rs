//! Identities: the parties that lend, borrow and hold the pool.

use vstd::prelude::*;

verus! {

/// A party to the ledger, known by the bytes of its address.
///
/// Two identities are the same party exactly when their bytes are equal. The
/// ledger never looks inside the bytes: it only compares them.
#[derive(Debug)]
pub struct Identity {
    key: Vec<u8>,
}

impl View for Identity {
    type V = Seq<u8>;

    closed spec fn view(&self) -> Seq<u8> {
        self.key@
    }
}

impl Identity {
    /// The identity with the given address bytes.
    pub fn new(key: Vec<u8>) -> (id: Identity)
        ensures
            id@ == key@,
    {
        Identity { key }
    }

    /// The address bytes of this identity.
    pub fn as_bytes(&self) -> (bytes: &Vec<u8>)
        ensures
            bytes@ == self@,
    {
        &self.key
    }

    /// Whether `self` and `other` are the same party.
    pub fn same_as(&self, other: &Identity) -> (same: bool)
        ensures
            same == (self@ == other@),
    {
        if self.key.len() != other.key.len() {
            return false;
        }
        let mut i: usize = 0;
        while i < self.key.len()
            invariant
                self.key.len() == other.key.len(),
                i <= self.key.len(),
                forall|j: int| 0 <= j < i ==> self.key[j] == other.key[j],
            decreases self.key.len() - i,
        {
            if self.key[i] != other.key[i] {
                return false;
            }
            i += 1;
        }
        assert(self.key@ =~= other.key@);
        true
    }
}

impl Clone for Identity {
    fn clone(&self) -> (copy: Identity)
        ensures
            copy@ == self@,
    {
        let mut key: Vec<u8> = Vec::with_capacity(self.key.len());
        let mut i: usize = 0;
        while i < self.key.len()
            invariant
                i <= self.key.len(),
                key@ == self.key@.subrange(0, i as int),
            decreases self.key.len() - i,
        {
            key.push(self.key[i]);
            i += 1;
        }
        Identity { key }
    }
}

impl PartialEq for Identity {
    fn eq(&self, other: &Identity) -> (same: bool) {
        self.same_as(other)
    }
}

impl Eq for Identity {}

impl vstd::std_specs::cmp::PartialEqSpecImpl for Identity {
    open spec fn obeys_eq_spec() -> bool {
        true
    }

    open spec fn eq_spec(&self, other: &Identity) -> bool {
        self@ == other@
    }
}

} // verus!
