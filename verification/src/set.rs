//! Sets of digests and of claims.

use std::collections::HashMap;
use vstd::prelude::*;
use crate::digest::{BlobFormat, Digest, HashAndFormat};

verus! {

/// A set of digests.
///
/// Its members stand in the order in which they first came, and an index from the first half of
/// a digest to the places of the members that begin with it finds them again.
#[derive(Debug)]
pub struct DigestSet {
    items: Vec<Digest>,
    index: HashMap<u128, Vec<usize>>,
}

/// What holds of the members and the index of a set.
spec fn indexed(items: Seq<Digest>, index: Map<u128, Vec<usize>>) -> bool {
    &&& items.no_duplicates()
    &&& forall|i: int|
        #![trigger items[i]]
        0 <= i < items.len() ==> index.contains_key(items[i].hi)
            && index[items[i].hi]@.contains(i as usize)
    &&& forall|k: u128, j: int|
        #![trigger index[k]@[j]]
        index.contains_key(k) && 0 <= j < index[k]@.len() ==> index[k]@[j] < items.len()
}

impl View for DigestSet {
    type V = Set<Digest>;

    closed spec fn view(&self) -> Set<Digest> {
        self.items@.to_set()
    }
}

impl DigestSet {
    #[verifier::type_invariant]
    spec fn wf(self) -> bool {
        indexed(self.items@, self.index@)
    }

    /// The empty set.
    pub fn new() -> (set: Self)
        ensures
            set@ == Set::<Digest>::empty(),
    {
        broadcast use vstd::std_specs::hash::group_hash_axioms;
        let set = DigestSet { items: Vec::new(), index: HashMap::new() };
        assert(set@ =~= Set::<Digest>::empty());
        set
    }

    /// Whether `hash` is a member.
    pub fn contains(&self, hash: &Digest) -> (found: bool)
        ensures
            found == self@.contains(*hash),
    {
        broadcast use vstd::std_specs::hash::group_hash_axioms;
        proof {
            use_type_invariant(self);
        }
        match self.index.get(&hash.hi) {
            None => {
                assert(!self.items@.contains(*hash));
                false
            },
            Some(places) => {
                let mut i: usize = 0;
                while i < places.len()
                    invariant
                        i <= places.len(),
                        indexed(self.items@, self.index@),
                        self.index@.contains_key(hash.hi),
                        self.index@[hash.hi] == *places,
                        forall|j: int|
                            0 <= j < i ==> self.items@[(#[trigger] places@[j]) as int] != *hash,
                    decreases places.len() - i,
                {
                    assert(self.index@[hash.hi]@[i as int] < self.items@.len());
                    if self.items[places[i]] == *hash {
                        assert(self.items@.contains(*hash));
                        return true;
                    }
                    i += 1;
                }
                proof {
                    if self.items@.contains(*hash) {
                        let k = choose|k: int| 0 <= k < self.items@.len() && self.items@[k] == *hash;
                        assert(k < self.items.len());
                        assert(self.index@[self.items@[k].hi]@.contains(k as usize));
                        let j = choose|j: int| 0 <= j < places@.len() && places@[j] == k as usize;
                        assert(self.items@[places@[j] as int] == *hash);
                    }
                }
                false
            },
        }
    }

    /// Adds `hash`; tells whether it is new.
    pub fn insert(&mut self, hash: Digest) -> (new: bool)
        ensures
            final(self)@ == old(self)@.insert(hash),
            new == !old(self)@.contains(hash),
    {
        broadcast use vstd::std_specs::hash::group_hash_axioms;
        if self.contains(&hash) {
            assert(self@ =~= self@.insert(hash));
            return false;
        }
        proof {
            use_type_invariant(&*self);
        }
        let mut taken = DigestSet::new();
        core::mem::swap(self, &mut taken);
        let DigestSet { mut items, mut index } = taken;
        let ghost items0 = items@;
        let ghost index0 = index@;
        let place: usize = items.len();
        let mut places = match index.remove(&hash.hi) {
            Some(places) => places,
            None => Vec::new(),
        };
        let ghost places0 = places@;
        places.push(place);
        let ghost placed = places@;
        items.push(hash);
        index.insert(hash.hi, places);
        proof {
            assert(placed[places0.len() as int] == place);
            assert forall|i: int| #![trigger items@[i]] 0 <= i < items@.len() implies
                index@.contains_key(items@[i].hi) && index@[items@[i].hi]@.contains(i as usize) by {
                if i < items0.len() {
                    assert(items@[i] == items0[i]);
                    if items0[i].hi == hash.hi {
                        let j = choose|j: int| 0 <= j < places0.len() && places0[j] == i as usize;
                        assert(placed[j] == i as usize);
                    }
                }
            }
            assert forall|k: u128, j: int| #![trigger index@[k]@[j]]
                index@.contains_key(k) && 0 <= j < index@[k]@.len() implies index@[k]@[j]
                < items@.len() by {
                if k == hash.hi {
                    if j < places0.len() {
                        assert(placed[j] == places0[j]);
                        assert(index0[k]@[j] < items0.len());
                    }
                } else {
                    assert(index0[k]@[j] < items0.len());
                }
            }
        }
        *self = DigestSet { items, index };
        assert(self@ =~= old(self)@.insert(hash)) by {
            items0.lemma_push_to_set_commute(hash);
        }
        true
    }

    /// How many members there are.
    pub fn len(&self) -> (n: usize)
        ensures
            self@.finite(),
            n == self@.len(),
    {
        proof {
            use_type_invariant(self);
            self.items@.unique_seq_to_set();
        }
        self.items.len()
    }

    /// Removes every member.
    pub fn clear(&mut self)
        ensures
            final(self)@ == Set::<Digest>::empty(),
    {
        *self = DigestSet::new();
    }
}

/// The claims after one more: a claim that is there already is not added again.
pub open spec fn with_claim(claims: Seq<HashAndFormat>, claim: HashAndFormat) -> Seq<HashAndFormat> {
    if claims.contains(claim) {
        claims
    } else {
        claims.push(claim)
    }
}

/// A set of claims, in the order in which they first came.
#[derive(Debug)]
pub struct ClaimSet {
    claims: Vec<HashAndFormat>,
    raw: DigestSet,
    hash_seq: DigestSet,
}

impl View for ClaimSet {
    type V = Seq<HashAndFormat>;

    closed spec fn view(&self) -> Seq<HashAndFormat> {
        self.claims@
    }
}

/// What holds of the claims and of the digests claimed under each format.
spec fn sorted_by_format(
    claims: Seq<HashAndFormat>,
    raw: Set<Digest>,
    hash_seq: Set<Digest>,
) -> bool {
    &&& forall|hash: Digest|
        #[trigger] raw.contains(hash) <==> claims.contains(
            HashAndFormat { hash, format: BlobFormat::Raw },
        )
    &&& forall|hash: Digest|
        #[trigger] hash_seq.contains(hash) <==> claims.contains(
            HashAndFormat { hash, format: BlobFormat::HashSeq },
        )
}

impl ClaimSet {
    #[verifier::type_invariant]
    spec fn wf(self) -> bool {
        sorted_by_format(self.claims@, self.raw@, self.hash_seq@)
    }

    /// The empty set.
    pub fn new() -> (set: Self)
        ensures
            set@ == Seq::<HashAndFormat>::empty(),
    {
        ClaimSet { claims: Vec::new(), raw: DigestSet::new(), hash_seq: DigestSet::new() }
    }

    /// Adds a claim, unless it is there already.
    pub fn insert(self, claim: HashAndFormat) -> (set: Self)
        ensures
            set@ == with_claim(self@, claim),
    {
        proof {
            use_type_invariant(&self);
        }
        let ClaimSet { mut claims, mut raw, mut hash_seq } = self;
        let new = match claim.format {
            BlobFormat::Raw => raw.insert(claim.hash),
            BlobFormat::HashSeq => hash_seq.insert(claim.hash),
        };
        if new {
            claims.push(claim);
        }
        proof {
            assert(claim == HashAndFormat { hash: claim.hash, format: claim.format });
            let before = self.claims@;
            assert forall|c: HashAndFormat| #[trigger] claims@.contains(c) <==> before.contains(c)
                || c == claim by {
                if before.contains(c) {
                    let i = choose|i: int| 0 <= i < before.len() && before[i] == c;
                    assert(claims@[i] == c);
                }
                if new && c == claim {
                    assert(claims@[before.len() as int] == c);
                }
            }
        }
        ClaimSet { claims, raw, hash_seq }
    }

    /// The claims as a vector, in the order in which they first came.
    pub fn into_vec(self) -> (claims: Vec<HashAndFormat>)
        ensures
            claims@ == self@,
    {
        self.claims
    }
}

} // verus!
