//! The addresses of the peers that a node knows, each listed once, in the
//! order in which they were registered.

use crate::text::same_text;
use vstd::prelude::*;

verus! {

/// A set of addresses that remembers the order of registration. Addresses
/// are only ever added.
#[derive(Debug)]
pub struct PeerSet {
    addresses: Vec<String>,
}

impl View for PeerSet {
    type V = Seq<Seq<char>>;

    /// The addresses in the order of their registration.
    closed spec fn view(&self) -> Seq<Seq<char>> {
        Seq::new(self.addresses@.len(), |i: int| self.addresses@[i]@)
    }
}

impl PeerSet {
    #[verifier::type_invariant]
    spec fn listed_once(self) -> bool {
        forall|i: int, j: int|
            0 <= i < j < self.addresses@.len() ==> self.addresses@[i]@ != self.addresses@[j]@
    }

    /// The empty set.
    pub fn new() -> (peers: PeerSet)
        ensures
            peers@ == Seq::<Seq<char>>::empty(),
    {
        let peers = PeerSet { addresses: Vec::new() };
        assert(peers@ =~= Seq::<Seq<char>>::empty());
        peers
    }

    /// The number of addresses, none of which is listed twice.
    pub fn len(&self) -> (n: usize)
        ensures
            n == self@.len(),
            self@.no_duplicates(),
    {
        proof {
            use_type_invariant(self);
        }
        self.addresses.len()
    }

    /// Tells whether `address` is listed.
    pub fn contains(&self, address: &str) -> (listed: bool)
        ensures
            listed == self@.contains(address@),
    {
        let mut i: usize = 0;
        while i < self.addresses.len()
            invariant
                i <= self.addresses.len(),
                forall|j: int| 0 <= j < i ==> self@[j] != address@,
            decreases self.addresses.len() - i,
        {
            if same_text(self.addresses[i].as_str(), address) {
                assert(self@[i as int] == address@);
                return true;
            }
            i += 1;
        }
        false
    }

    /// Lists `address` unless it is listed already. Returns whether it was
    /// new; a known address changes nothing.
    pub fn insert(&mut self, address: String) -> (fresh: bool)
        ensures
            fresh == !old(self)@.contains(address@),
            final(self)@ == if fresh {
                old(self)@.push(address@)
            } else {
                old(self)@
            },
            final(self)@.contains(address@),
            final(self)@.no_duplicates(),
    {
        proof {
            use_type_invariant(&*self);
        }
        if self.contains(address.as_str()) {
            return false;
        }
        let ghost before = self@;
        let mut taken = PeerSet::new();
        std::mem::swap(self, &mut taken);
        let mut addresses = taken.addresses;
        addresses.push(address);
        assert forall|i: int, j: int| 0 <= i < j < addresses@.len() implies addresses@[i]@
            != addresses@[j]@ by {
            assert(before[i] == addresses@[i]@);
            if j < before.len() {
                assert(before[j] == addresses@[j]@);
            } else {
                assert(before.contains(before[i]));
            }
        }
        *self = PeerSet { addresses };
        assert(self@ =~= before.push(address@));
        assert(self@[before.len() as int] == address@);
        true
    }

    /// The addresses as a list of their own, in the order of registration.
    pub fn to_vec(&self) -> (list: Vec<String>)
        ensures
            list@.len() == self@.len(),
            forall|i: int| 0 <= i < list@.len() ==> list@[i]@ == self@[i],
            self@.no_duplicates(),
    {
        proof {
            use_type_invariant(self);
        }
        let mut list: Vec<String> = Vec::new();
        let mut i: usize = 0;
        while i < self.addresses.len()
            invariant
                i <= self.addresses.len(),
                list@.len() == i,
                forall|j: int| 0 <= j < i ==> list@[j]@ == self@[j],
            decreases self.addresses.len() - i,
        {
            list.push(self.addresses[i].clone());
            i += 1;
        }
        list
    }
}

} // verus!
