//! The devices that an adapter has heard of.

use std::collections::HashMap;

use vstd::prelude::*;

use crate::hci;
use crate::hci::BDAddr;

verus! {

/// A set of device addresses.
#[derive(Debug)]
pub struct PeripheralTable {
    by_key: HashMap<u64, BDAddr>,
}

impl View for PeripheralTable {
    type V = Set<BDAddr>;

    closed spec fn view(&self) -> Set<BDAddr> {
        Set::new(|a: BDAddr| self.by_key@.contains_key(a.spec_key() as u64))
    }
}

impl PeripheralTable {
    /// Every address is filed under its number.
    #[verifier::type_invariant]
    spec fn inv(self) -> bool {
        filed(self.by_key@)
    }

    /// The empty table.
    pub fn new() -> (table: PeripheralTable)
        ensures
            table@ == Set::<BDAddr>::empty(),
    {
        let table = PeripheralTable { by_key: HashMap::new() };
        assert(table@ =~= Set::<BDAddr>::empty());
        table
    }

    /// Whether the device is known.
    pub fn contains(&self, address: &BDAddr) -> (known: bool)
        ensures
            known == self@.contains(*address),
    {
        self.by_key.contains_key(&address.key())
    }

    /// Makes the device known. Tells whether it was not before.
    pub fn insert(&mut self, address: BDAddr) -> (added: bool)
        ensures
            final(self)@ == old(self)@.insert(address),
            added == !old(self)@.contains(address),
    {
        proof {
            use_type_invariant(&*self);
        }
        let mut by_key: HashMap<u64, BDAddr> = HashMap::new();
        std::mem::swap(&mut by_key, &mut self.by_key);
        let key: u64 = address.key();
        let added = !by_key.contains_key(&key);
        if added {
            by_key.insert(key, address);
        }
        self.by_key = by_key;
        proof {
            assert forall|a: BDAddr| #[trigger]
                self@.contains(a) <==> old(self)@.insert(address).contains(a) by {
                if a.spec_key() == address.spec_key() {
                    hci::law_key_injective(a, address);
                }
                hci::lemma_key_range(a);
            }
            assert(self@ =~= old(self)@.insert(address));
        }
        added
    }

    /// The known devices, each once.
    pub fn addresses(&self) -> (list: Vec<BDAddr>)
        ensures
            list@.to_set() == self@,
            list@.no_duplicates(),
    {
        proof {
            use_type_invariant(self);
        }
        let mut list: Vec<BDAddr> = Vec::new();
        let ghost mut seen: Seq<u64> = Seq::empty();
        for key in keys: self.by_key.keys()
            invariant
                keys.seq().unref().to_set() == self.by_key@.dom(),
                keys.seq().no_duplicates(),
                filed(self.by_key@),
                seen == keys.seq().unref().take(keys.index() as int),
                keys.index() == keys.seq().len() ==> seen.to_set() == self.by_key@.dom(),
                list@.len() == seen.len(),
                seen.no_duplicates(),
                forall|j: int|
                    0 <= j < seen.len() ==> self.by_key@.contains_key(#[trigger] seen[j])
                        && list@[j] == self.by_key@[seen[j]],
        {
            proof {
                let all = keys.seq().unref();
                assert(all[keys.index() as int] == *key);
                assert(all.to_set().contains(*key));
                seen = seen.push(*key);
                assert(seen =~= all.take(keys.index() + 1));
                assert(keys.index() + 1 == all.len() ==> seen =~= all);
                assert(seen.no_duplicates()) by {
                    assert forall|i: int, j: int| 0 <= i < j < seen.len() implies seen[i]
                        != seen[j] by {
                        assert(keys.seq()[i] != keys.seq()[j]);
                    }
                }
            }
            if let Some(address) = self.by_key.get(key) {
                list.push(*address);
            }
        }
        proof {
            assert forall|a: BDAddr| #[trigger] list@.to_set().contains(a) <==> self@.contains(
                a,
            ) by {
                hci::lemma_key_range(a);
                let k = a.spec_key() as u64;
                if list@.contains(a) {
                    let j = choose|j: int| 0 <= j < list@.len() && list@[j] == a;
                    assert(self.by_key@.contains_key(seen[j]));
                }
                if self.by_key@.contains_key(k) {
                    assert(seen.to_set().contains(k));
                    let j = choose|j: int| 0 <= j < seen.len() && seen[j] == k;
                    hci::law_key_injective(list@[j], a);
                    assert(list@.contains(a));
                }
            }
            assert(list@.to_set() =~= self@);
            assert forall|i: int, j: int| 0 <= i < j < list@.len() implies list@[i]
                != list@[j] by {
                assert(self.by_key@.contains_key(seen[i]) && self.by_key@.contains_key(seen[j]));
                assert(seen[i] != seen[j]);
            }
        }
        list
    }
}

/// Every address in `by_key` is filed under its number.
spec fn filed(by_key: Map<u64, BDAddr>) -> bool {
    forall|k: u64| #[trigger] by_key.contains_key(k) ==> by_key[k].spec_key() == k
}

} // verus!
