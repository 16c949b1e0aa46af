use vstd::prelude::*;

use crate::error::ContractError;

verus! {

/// One binding of a class id to the NFT contract that holds its tokens here.
pub struct ClassEntry {
    pub class_id: String,
    pub address: String,
}

/// The registry of collections known to this chain: a one-to-one map from
/// class ids to NFT contract addresses. A binding, once made, never changes.
pub struct ClassRegistry {
    entries: Vec<ClassEntry>,
    bindings: Ghost<Map<Seq<char>, Seq<char>>>,
}

impl View for ClassRegistry {
    type V = Map<Seq<char>, Seq<char>>;

    closed spec fn view(&self) -> Map<Seq<char>, Seq<char>> {
        self.bindings@
    }
}

/// Whether some class id is bound to `address`.
pub open spec fn address_bound(m: Map<Seq<char>, Seq<char>>, address: Seq<char>) -> bool {
    exists|c: Seq<char>| #[trigger] m.contains_key(c) && m[c] == address
}

/// The class id bound to `address`; meaningful where `address_bound` holds.
pub open spec fn class_for(m: Map<Seq<char>, Seq<char>>, address: Seq<char>) -> Seq<char> {
    choose|c: Seq<char>| #[trigger] m.contains_key(c) && m[c] == address
}

/// No two class ids share an address.
pub open spec fn injective(m: Map<Seq<char>, Seq<char>>) -> bool {
    forall|c1: Seq<char>, c2: Seq<char>|
        #[trigger] m.contains_key(c1) && #[trigger] m.contains_key(c2) && m[c1] == m[c2] ==> c1 == c2
}

impl ClassRegistry {
    /// A well-formed registry binds each address at most once.
    pub proof fn lemma_injective(&self)
        requires
            self.wf(),
        ensures
            injective(self@),
    {
        assert forall|c1: Seq<char>, c2: Seq<char>|
            #[trigger] self@.contains_key(c1) && #[trigger] self@.contains_key(c2) && self@[c1] == self@[c2]
            implies c1 == c2 by {
            let i = choose|i: int| 0 <= i < self.entries@.len() && #[trigger] self.entries@[i].class_id@ == c1;
            let j = choose|j: int| 0 <= j < self.entries@.len() && #[trigger] self.entries@[j].class_id@ == c2;
            assert(self.bindings@.contains_key(self.entries@[i].class_id@));
            assert(self.bindings@.contains_key(self.entries@[j].class_id@));
        }
    }

    /// Entries and ghost map agree; class ids and addresses are each unique.
    pub closed spec fn wf(&self) -> bool {
        &&& forall|i: int|
            0 <= i < self.entries@.len() ==> #[trigger] self.bindings@.contains_key(
                self.entries@[i].class_id@,
            ) && self.bindings@[self.entries@[i].class_id@] == self.entries@[i].address@
        &&& forall|c: Seq<char>|
            #[trigger] self.bindings@.contains_key(c) ==> exists|i: int|
                0 <= i < self.entries@.len() && #[trigger] self.entries@[i].class_id@ == c
        &&& forall|i: int, j: int|
            0 <= i < self.entries@.len() && 0 <= j < self.entries@.len() && i != j ==> {
                &&& #[trigger] self.entries@[i].class_id@ != #[trigger] self.entries@[j].class_id@
                &&& self.entries@[i].address@ != self.entries@[j].address@
            }
    }

    /// An empty registry.
    pub fn new() -> (r: ClassRegistry)
        ensures
            r.wf(),
            r@ == Map::<Seq<char>, Seq<char>>::empty(),
    {
        ClassRegistry { entries: Vec::new(), bindings: Ghost(Map::empty()) }
    }

    /// The NFT contract bound to `class_id`, if any.
    pub fn address_of(&self, class_id: &String) -> (r: Option<String>)
        requires
            self.wf(),
        ensures
            match r {
                Some(a) => self@.contains_key(class_id@) && a@ == self@[class_id@],
                None => !self@.contains_key(class_id@),
            },
    {
        let mut i: usize = 0;
        while i < self.entries.len()
            invariant
                self.wf(),
                i <= self.entries@.len(),
                forall|j: int| 0 <= j < i ==> #[trigger] self.entries@[j].class_id@ != class_id@,
            decreases self.entries@.len() - i,
        {
            if self.entries[i].class_id == *class_id {
                proof {
                    assert(self.bindings@.contains_key(self.entries@[i as int].class_id@));
                }
                return Some(self.entries[i].address.clone());
            }
            i = i + 1;
        }
        None
    }

    /// The class id bound to the NFT contract `address`, if any.
    pub fn class_of(&self, address: &String) -> (r: Option<String>)
        requires
            self.wf(),
        ensures
            match r {
                Some(c) => self@.contains_key(c@) && self@[c@] == address@ && address_bound(
                    self@,
                    address@,
                ) && c@ == class_for(self@, address@),
                None => !address_bound(self@, address@),
            },
    {
        let mut i: usize = 0;
        while i < self.entries.len()
            invariant
                self.wf(),
                i <= self.entries@.len(),
                forall|j: int| 0 <= j < i ==> #[trigger] self.entries@[j].address@ != address@,
            decreases self.entries@.len() - i,
        {
            if self.entries[i].address == *address {
                proof {
                    let c = self.entries@[i as int].class_id@;
                    assert(self.bindings@.contains_key(c));
                    self.lemma_injective();
                    assert(address_bound(self@, address@));
                    let cc = class_for(self@, address@);
                    assert(self@.contains_key(cc) && self@[cc] == address@);
                }
                return Some(self.entries[i].class_id.clone());
            }
            i = i + 1;
        }
        proof {
            assert forall|c: Seq<char>| #[trigger] self@.contains_key(c) implies self@[c] != address@ by {
                let k = choose|k: int| 0 <= k < self.entries@.len() && #[trigger] self.entries@[k].class_id@ == c;
                assert(self.bindings@.contains_key(self.entries@[k].class_id@));
                assert(self.entries@[k].address@ != address@);
            }
        }
        None
    }

    /// Whether `class_id` is bound.
    pub fn has_class(&self, class_id: &String) -> (r: bool)
        requires
            self.wf(),
        ensures
            r == self@.contains_key(class_id@),
    {
        self.address_of(class_id).is_some()
    }

    /// Binds `class_id` to `address`; refused when either is already bound.
    pub fn bind(&mut self, class_id: String, address: String) -> (r: Result<(), ContractError>)
        requires
            old(self).wf(),
        ensures
            final(self).wf(),
            r is Ok <==> !old(self)@.contains_key(class_id@) && !address_bound(old(self)@, address@),
            r is Ok ==> final(self)@ == old(self)@.insert(class_id@, address@),
            r is Err ==> r == Err::<(), ContractError>(ContractError::ClassAlreadyBound)
                && final(self)@ == old(self)@,
    {
        if self.address_of(&class_id).is_some() || self.class_of(&address).is_some() {
            return Err(ContractError::ClassAlreadyBound);
        }
        let ghost old_entries = self.entries@;
        let ghost old_map = self.bindings@;
        let ghost c = class_id@;
        let ghost a = address@;
        self.bindings = Ghost(self.bindings@.insert(c, a));
        self.entries.push(ClassEntry { class_id, address });
        proof {
            let n = old_entries.len() as int;
            assert(self.entries@[n].class_id@ == c);
            assert forall|i: int| 0 <= i < self.entries@.len() implies #[trigger] self.bindings@.contains_key(
                self.entries@[i].class_id@,
            ) && self.bindings@[self.entries@[i].class_id@] == self.entries@[i].address@ by {
                if i < n {
                    assert(self.entries@[i] == old_entries[i]);
                    assert(old_map.contains_key(old_entries[i].class_id@));
                }
            }
            assert forall|cc: Seq<char>| #[trigger] self.bindings@.contains_key(cc) implies exists|i: int|
                0 <= i < self.entries@.len() && #[trigger] self.entries@[i].class_id@ == cc by {
                if cc == c {
                    assert(self.entries@[n].class_id@ == cc);
                } else {
                    assert(old_map.contains_key(cc));
                    let i = choose|i: int| 0 <= i < old_entries.len() && #[trigger] old_entries[i].class_id@ == cc;
                    assert(self.entries@[i] == old_entries[i]);
                }
            }
            assert forall|i: int, j: int|
                0 <= i < self.entries@.len() && 0 <= j < self.entries@.len() && i != j implies {
                &&& #[trigger] self.entries@[i].class_id@ != #[trigger] self.entries@[j].class_id@
                &&& self.entries@[i].address@ != self.entries@[j].address@
            } by {
                if i < n {
                    assert(self.entries@[i] == old_entries[i]);
                    assert(old_map.contains_key(old_entries[i].class_id@));
                }
                if j < n {
                    assert(self.entries@[j] == old_entries[j]);
                    assert(old_map.contains_key(old_entries[j].class_id@));
                }
            }
        }
        Ok(())
    }
}

} // verus!
