use vstd::prelude::*;

use crate::error::ContractError;

verus! {

/// An asset, as the pair (collection id, token id).
pub type AssetKey = (Seq<char>, Seq<char>);

/// One custody record: the asset `(class_id, token_id)` is bound to `channel`.
pub struct EscrowEntry {
    pub class_id: String,
    pub token_id: String,
    pub channel: String,
}

impl EscrowEntry {
    pub open spec fn key(&self) -> AssetKey {
        (self.class_id@, self.token_id@)
    }
}

/// A map from assets to the channel that holds their custody. Each asset has
/// at most one record.
pub struct EscrowLedger {
    entries: Vec<EscrowEntry>,
    records: Ghost<Map<AssetKey, Seq<char>>>,
}

impl View for EscrowLedger {
    type V = Map<AssetKey, Seq<char>>;

    closed spec fn view(&self) -> Map<AssetKey, Seq<char>> {
        self.records@
    }
}

impl EscrowLedger {
    /// The entries and the ghost map describe the same records, one entry per asset.
    pub closed spec fn wf(&self) -> bool {
        &&& forall|i: int|
            0 <= i < self.entries@.len() ==> #[trigger] self.records@.contains_key(
                self.entries@[i].key(),
            ) && self.records@[self.entries@[i].key()] == self.entries@[i].channel@
        &&& forall|k: AssetKey|
            #[trigger] self.records@.contains_key(k) ==> exists|i: int|
                0 <= i < self.entries@.len() && #[trigger] self.entries@[i].key() == k
        &&& forall|i: int, j: int|
            0 <= i < self.entries@.len() && 0 <= j < self.entries@.len() && i != j
                ==> #[trigger] self.entries@[i].key() != #[trigger] self.entries@[j].key()
    }

    /// An empty ledger.
    pub fn new() -> (r: EscrowLedger)
        ensures
            r.wf(),
            r@ == Map::<AssetKey, Seq<char>>::empty(),
    {
        EscrowLedger { entries: Vec::new(), records: Ghost(Map::empty()) }
    }

    fn find(&self, class_id: &String, token_id: &String) -> (r: Option<usize>)
        requires
            self.wf(),
        ensures
            match r {
                Some(i) => i < self.entries@.len() && self.entries@[i as int].key() == (
                class_id@,
                token_id@,
                ),
                None => !self@.contains_key((class_id@, token_id@)),
            },
    {
        let mut i: usize = 0;
        while i < self.entries.len()
            invariant
                self.wf(),
                i <= self.entries@.len(),
                forall|j: int| 0 <= j < i ==> #[trigger] self.entries@[j].key() != (class_id@, token_id@),
            decreases self.entries@.len() - i,
        {
            let e = &self.entries[i];
            if e.class_id == *class_id && e.token_id == *token_id {
                return Some(i);
            }
            i = i + 1;
        }
        None
    }

    /// The channel recorded for an asset, if any.
    pub fn channel_of(&self, class_id: &String, token_id: &String) -> (r: Option<String>)
        requires
            self.wf(),
        ensures
            match r {
                Some(c) => self@.contains_key((class_id@, token_id@)) && c@ == self@[(
                class_id@,
                token_id@,
                )],
                None => !self@.contains_key((class_id@, token_id@)),
            },
    {
        match self.find(class_id, token_id) {
            Some(i) => {
                proof {
                    assert(self.records@.contains_key(self.entries@[i as int].key()));
                }
                Some(self.entries[i].channel.clone())
            },
            None => None,
        }
    }

    /// Whether a record exists for the asset.
    pub fn contains(&self, class_id: &String, token_id: &String) -> (r: bool)
        requires
            self.wf(),
        ensures
            r == self@.contains_key((class_id@, token_id@)),
    {
        self.find(class_id, token_id).is_some()
    }

    /// Records custody of an asset by `channel`; refused when the asset
    /// already has a record.
    pub fn record(&mut self, class_id: String, token_id: String, channel: String) -> (r: Result<(), ContractError>)
        requires
            old(self).wf(),
        ensures
            final(self).wf(),
            old(self)@.contains_key((class_id@, token_id@)) ==> r == Err::<(), ContractError>(
                ContractError::AlreadyEscrowed,
            ) && final(self)@ == old(self)@,
            !old(self)@.contains_key((class_id@, token_id@)) ==> r is Ok && final(self)@ == old(
                self,
            )@.insert((class_id@, token_id@), channel@),
    {
        if self.find(&class_id, &token_id).is_some() {
            return Err(ContractError::AlreadyEscrowed);
        }
        let ghost k = (class_id@, token_id@);
        let ghost old_entries = self.entries@;
        let ghost old_records = self.records@;
        self.records = Ghost(self.records@.insert(k, channel@));
        self.entries.push(EscrowEntry { class_id, token_id, channel });
        proof {
            let n = old_entries.len() as int;
            assert(self.entries@[n].key() == k);
            assert forall|i: int| 0 <= i < self.entries@.len() implies #[trigger] self.records@.contains_key(
                self.entries@[i].key(),
            ) && self.records@[self.entries@[i].key()] == self.entries@[i].channel@ by {
                if i < n {
                    assert(self.entries@[i] == old_entries[i]);
                    assert(old_records.contains_key(old_entries[i].key()));
                }
            }
            assert forall|kk: AssetKey| #[trigger] self.records@.contains_key(kk) implies exists|i: int|
                0 <= i < self.entries@.len() && #[trigger] self.entries@[i].key() == kk by {
                if kk == k {
                    assert(self.entries@[n].key() == kk);
                } else {
                    assert(old_records.contains_key(kk));
                    let i = choose|i: int| 0 <= i < old_entries.len() && #[trigger] old_entries[i].key() == kk;
                    assert(self.entries@[i] == old_entries[i]);
                }
            }
            assert forall|i: int, j: int|
                0 <= i < self.entries@.len() && 0 <= j < self.entries@.len() && i != j
                implies #[trigger] self.entries@[i].key() != #[trigger] self.entries@[j].key() by {
                if i < n && j < n {
                    assert(self.entries@[i] == old_entries[i]);
                    assert(self.entries@[j] == old_entries[j]);
                } else if i < n {
                    assert(self.entries@[i] == old_entries[i]);
                    assert(old_records.contains_key(old_entries[i].key()));
                } else if j < n {
                    assert(self.entries@[j] == old_entries[j]);
                    assert(old_records.contains_key(old_entries[j].key()));
                }
            }
        }
        Ok(())
    }

    /// Removes the record of an asset held by `channel`; refused when there
    /// is no record, or when it names another channel.
    pub fn release(&mut self, class_id: &String, token_id: &String, channel: &String) -> (r: Result<(), ContractError>)
        requires
            old(self).wf(),
        ensures
            final(self).wf(),
            !old(self)@.contains_key((class_id@, token_id@)) ==> r == Err::<(), ContractError>(
                ContractError::NotEscrowed,
            ) && final(self)@ == old(self)@,
            old(self)@.contains_key((class_id@, token_id@)) && old(self)@[(class_id@, token_id@)]
                != channel@ ==> r == Err::<(), ContractError>(ContractError::ChannelMismatch)
                && final(self)@ == old(self)@,
            old(self)@.contains_key((class_id@, token_id@)) && old(self)@[(class_id@, token_id@)]
                == channel@ ==> r is Ok && final(self)@ == old(self)@.remove((class_id@, token_id@)),
    {
        let idx = match self.find(class_id, token_id) {
            Some(i) => i,
            None => {
                return Err(ContractError::NotEscrowed);
            },
        };
        proof {
            assert(self.records@.contains_key(self.entries@[idx as int].key()));
        }
        if self.entries[idx].channel != *channel {
            return Err(ContractError::ChannelMismatch);
        }
        let ghost k = (class_id@, token_id@);
        let ghost old_entries = self.entries@;
        let ghost old_records = self.records@;
        self.records = Ghost(self.records@.remove(k));
        self.entries.remove(idx);
        proof {
            let m = idx as int;
            assert forall|i: int| 0 <= i < self.entries@.len() implies #[trigger] self.records@.contains_key(
                self.entries@[i].key(),
            ) && self.records@[self.entries@[i].key()] == self.entries@[i].channel@ by {
                let oi = if i < m { i } else { i + 1 };
                assert(self.entries@[i] == old_entries[oi]);
                assert(old_entries[oi].key() != old_entries[m].key());
                assert(old_records.contains_key(old_entries[oi].key()));
            }
            assert forall|kk: AssetKey| #[trigger] self.records@.contains_key(kk) implies exists|i: int|
                0 <= i < self.entries@.len() && #[trigger] self.entries@[i].key() == kk by {
                assert(old_records.contains_key(kk));
                let oi = choose|i: int| 0 <= i < old_entries.len() && #[trigger] old_entries[i].key() == kk;
                assert(oi != m);
                if oi < m {
                    assert(self.entries@[oi] == old_entries[oi]);
                } else {
                    assert(self.entries@[oi - 1] == old_entries[oi]);
                }
            }
            assert forall|i: int, j: int|
                0 <= i < self.entries@.len() && 0 <= j < self.entries@.len() && i != j
                implies #[trigger] self.entries@[i].key() != #[trigger] self.entries@[j].key() by {
                let oi = if i < m { i } else { i + 1 };
                let oj = if j < m { j } else { j + 1 };
                assert(self.entries@[i] == old_entries[oi]);
                assert(self.entries@[j] == old_entries[oj]);
            }
        }
        Ok(())
    }
}

} // verus!
