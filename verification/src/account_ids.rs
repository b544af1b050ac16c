//! The association between accounts and identity ids, keyed by account.

use vstd::prelude::*;

verus! {

/// What a list of `(account, id)` entries maps each account to. Where two
/// entries name the same account, the later one counts.
pub open spec fn entries_map(entries: Seq<(String, u128)>) -> Map<Seq<char>, u128>
    decreases entries.len(),
{
    if entries.len() == 0 {
        Map::empty()
    } else {
        entries_map(entries.drop_last()).insert(entries.last().0@, entries.last().1)
    }
}

/// Appending an entry binds its account, whatever was there before.
pub proof fn lemma_entries_map_push(entries: Seq<(String, u128)>, entry: (String, u128))
    ensures
        entries_map(entries.push(entry)) == entries_map(entries).insert(entry.0@, entry.1),
{
    assert(entries.push(entry).drop_last() =~= entries);
}

/// A map from account to identity id, kept as a list of entries.
pub struct AccountIds {
    pub entries: Vec<(String, u128)>,
}

impl View for AccountIds {
    type V = Map<Seq<char>, u128>;

    open spec fn view(&self) -> Map<Seq<char>, u128> {
        entries_map(self.entries@)
    }
}

impl AccountIds {
    /// The empty association.
    pub fn new() -> (r: Self)
        ensures
            r@ == Map::<Seq<char>, u128>::empty(),
    {
        AccountIds { entries: Vec::new() }
    }

    /// The id bound to `account`, if any.
    pub fn get(&self, account: &String) -> (r: Option<u128>)
        ensures
            r == (if self@.contains_key(account@) {
                Some(self@[account@])
            } else {
                None
            }),
    {
        let mut found: Option<u128> = None;
        let mut i: usize = 0;
        while i < self.entries.len()
            invariant
                i <= self.entries.len(),
                found == (if entries_map(self.entries@.take(i as int)).contains_key(account@) {
                    Some(entries_map(self.entries@.take(i as int))[account@])
                } else {
                    None
                }),
            decreases self.entries.len() - i,
        {
            proof {
                let next = self.entries@.take(i + 1);
                assert(next.drop_last() =~= self.entries@.take(i as int));
            }
            if self.entries[i].0 == *account {
                found = Some(self.entries[i].1);
            }
            i += 1;
        }
        assert(self.entries@.take(i as int) =~= self.entries@);
        found
    }

    /// Whether `account` is bound to an id.
    pub fn contains_key(&self, account: &String) -> (r: bool)
        ensures
            r == self@.contains_key(account@),
    {
        self.get(account).is_some()
    }

    /// Removes the binding of `account`, if there is one.
    pub fn remove(&mut self, account: &String)
        ensures
            final(self)@ == old(self)@.remove(account@),
    {
        let mut kept: Vec<(String, u128)> = Vec::new();
        let mut i: usize = 0;
        while i < self.entries.len()
            invariant
                i <= self.entries.len(),
                entries_map(kept@) == entries_map(self.entries@.take(i as int)).remove(account@),
            decreases self.entries.len() - i,
        {
            proof {
                let next = self.entries@.take(i + 1);
                assert(next.drop_last() =~= self.entries@.take(i as int));
            }
            if self.entries[i].0 != *account {
                let entry = (self.entries[i].0.clone(), self.entries[i].1);
                proof {
                    lemma_entries_map_push(kept@, entry);
                }
                kept.push(entry);
            }
            assert(entries_map(kept@) =~= entries_map(self.entries@.take(i + 1)).remove(account@));
            i += 1;
        }
        assert(self.entries@.take(i as int) =~= self.entries@);
        self.entries = kept;
    }

    /// Binds `account` to `id`, replacing any earlier binding of that account.
    pub fn insert(&mut self, account: String, id: u128)
        ensures
            final(self)@ == old(self)@.insert(account@, id),
    {
        self.remove(&account);
        proof {
            lemma_entries_map_push(self.entries@, (account, id));
        }
        self.entries.push((account, id));
        assert(final(self)@ =~= old(self)@.insert(account@, id));
    }
}

/// The accounts of a map from identity id to account that is held in a hash
/// map.
pub open spec fn accounts_of(accounts: Map<u128, String>) -> Map<u128, Seq<char>> {
    accounts.map_values(|account: String| account@)
}

} // verus!
