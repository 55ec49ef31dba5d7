use vstd::prelude::*;

verus! {

/// A storage map from account identifiers to values.
///
/// It stands where the modules would otherwise keep an ordered map of std:
/// those maps carry no usable specification for `String` keys, so the entries
/// live in a vector instead, and `wf` records as an invariant what the map
/// kept by construction — at most one entry per key. Its view is the
/// mathematical `Map` from the key's character sequence to the stored value.
#[derive(Debug)]
pub struct StorageMap<T> {
    entries: Vec<(String, T)>,
}

impl<T> View for StorageMap<T> {
    type V = Map<Seq<char>, T>;

    closed spec fn view(&self) -> Map<Seq<char>, T> {
        StorageMap::<T>::map_of(self.entries@)
    }
}

impl<T> StorageMap<T> {
    /// The map described by a prefix of entries, later entries winning.
    pub closed spec fn map_of(s: Seq<(String, T)>) -> Map<Seq<char>, T>
        decreases s.len(),
    {
        if s.len() == 0 {
            Map::empty()
        } else {
            StorageMap::<T>::map_of(s.drop_last()).insert(s.last().0@, s.last().1)
        }
    }

    /// No two entries bind the same key.
    pub closed spec fn wf(self) -> bool {
        forall|i: int, j: int|
            0 <= i < j < self.entries@.len() ==> self.entries@[i].0@ != self.entries@[j].0@
    }

    /// A key that no entry binds is not in the map.
    proof fn lemma_absent(s: Seq<(String, T)>, a: Seq<char>)
        requires
            forall|j: int| 0 <= j < s.len() ==> s[j].0@ != a,
        ensures
            !StorageMap::<T>::map_of(s).dom().contains(a),
        decreases s.len(),
    {
        if s.len() > 0 {
            StorageMap::<T>::lemma_absent(s.drop_last(), a);
        }
    }

    /// With distinct keys, the entry at any index gives the map's value at its key.
    proof fn lemma_get(s: Seq<(String, T)>, i: int)
        requires
            0 <= i < s.len(),
            forall|p: int, q: int| 0 <= p < q < s.len() ==> s[p].0@ != s[q].0@,
        ensures
            StorageMap::<T>::map_of(s).dom().contains(s[i].0@),
            StorageMap::<T>::map_of(s)[s[i].0@] == s[i].1,
        decreases s.len(),
    {
        if i < s.len() - 1 {
            StorageMap::<T>::lemma_get(s.drop_last(), i);
        }
    }

    /// Rebinding the entry at index `i` updates the map at that entry's key.
    proof fn lemma_update(s: Seq<(String, T)>, i: int, v: T)
        requires
            0 <= i < s.len(),
            forall|p: int, q: int| 0 <= p < q < s.len() ==> s[p].0@ != s[q].0@,
        ensures
            StorageMap::<T>::map_of(s.update(i, (s[i].0, v)))
                == StorageMap::<T>::map_of(s).insert(s[i].0@, v),
        decreases s.len(),
    {
        let s2 = s.update(i, (s[i].0, v));
        if i == s.len() - 1 {
            assert(s2.drop_last() =~= s.drop_last());
            assert(StorageMap::<T>::map_of(s2)
                =~= StorageMap::<T>::map_of(s).insert(s[i].0@, v));
        } else {
            StorageMap::<T>::lemma_update(s.drop_last(), i, v);
            assert(s2.drop_last() =~= s.drop_last().update(i, (s[i].0, v)));
            assert(StorageMap::<T>::map_of(s2)
                =~= StorageMap::<T>::map_of(s).insert(s[i].0@, v));
        }
    }

    /// An empty storage map.
    pub fn new() -> (r: Self)
        ensures
            r.wf(),
            r@ == Map::<Seq<char>, T>::empty(),
    {
        let r = StorageMap { entries: Vec::new() };
        proof {
            assert(r@ =~= Map::<Seq<char>, T>::empty());
        }
        r
    }

    /// The value bound to `who`, if any entry binds it.
    pub fn get(&self, who: &String) -> (r: Option<&T>)
        requires
            self.wf(),
        ensures
            match r {
                Some(v) => self@.dom().contains(who@) && *v == self@[who@],
                None => !self@.dom().contains(who@),
            },
    {
        let n = self.entries.len();
        let mut i: usize = 0;
        while i < n
            invariant
                n == self.entries@.len(),
                i <= n,
                self.wf(),
                forall|j: int| 0 <= j < i ==> self.entries@[j].0@ != who@,
            decreases n - i,
        {
            if self.entries[i].0 == *who {
                proof {
                    StorageMap::<T>::lemma_get(self.entries@, i as int);
                }
                return Some(&self.entries[i].1);
            }
            i = i + 1;
        }
        proof {
            StorageMap::<T>::lemma_absent(self.entries@, who@);
        }
        None
    }

    /// Binds `who` to `v`, replacing any earlier binding.
    pub fn insert(&mut self, who: &String, v: T)
        requires
            old(self).wf(),
        ensures
            final(self).wf(),
            final(self)@ == old(self)@.insert(who@, v),
    {
        let n = self.entries.len();
        let mut i: usize = 0;
        while i < n
            invariant
                n == self.entries@.len(),
                i <= n,
                self.wf(),
                self == old(self),
                forall|j: int| 0 <= j < i ==> self.entries@[j].0@ != who@,
            decreases n - i,
        {
            if self.entries[i].0 == *who {
                proof {
                    StorageMap::<T>::lemma_update(self.entries@, i as int, v);
                }
                self.entries[i].1 = v;
                return ;
            }
            i = i + 1;
        }
        self.entries.push((who.clone(), v));
        proof {
            assert(self.entries@.drop_last() =~= old(self).entries@);
        }
    }
}

} // verus!
