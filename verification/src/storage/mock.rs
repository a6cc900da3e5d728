use vstd::prelude::*;

use super::{Storage, StorageError};
use crate::profile::{Profile, ProfileSpec};

verus! {

/// The profiles of a sequence of `(identifier, profile)` entries, by
/// identifier; a later entry overrides an earlier one.
pub open spec fn entries_map(s: Seq<(String, Profile)>) -> Map<Seq<char>, ProfileSpec>
    decreases s.len(),
{
    if s.len() == 0 {
        Map::empty()
    } else {
        entries_map(s.drop_last()).insert(s.last().0@, s.last().1@)
    }
}

/// The identifiers of a sequence of profiles.
pub open spec fn profile_ids(items: Seq<ProfileSpec>) -> Seq<Seq<char>> {
    items.map_values(|p: ProfileSpec| p.id())
}

/// Each entry is keyed by its profile's identifier, and no key repeats.
pub open spec fn entries_wf(s: Seq<(String, Profile)>) -> bool {
    &&& forall|i: int| 0 <= i < s.len() ==> (#[trigger] s[i]).0@ == s[i].1@.id()
    &&& forall|i: int, j: int|
        0 <= i < j < s.len() ==> (#[trigger] s[i]).0@ != (#[trigger] s[j]).0@
}

proof fn lemma_entries_map_finite(s: Seq<(String, Profile)>)
    ensures
        entries_map(s).dom().finite(),
    decreases s.len(),
{
    if s.len() > 0 {
        lemma_entries_map_finite(s.drop_last());
    }
}

proof fn lemma_entries_map(s: Seq<(String, Profile)>)
    requires
        entries_wf(s),
    ensures
        entries_map(s).dom().finite(),
        forall|k: Seq<char>|
            #[trigger] entries_map(s).contains_key(k) <==> exists|i: int|
                0 <= i < s.len() && (#[trigger] s[i]).0@ == k,
        forall|i: int| 0 <= i < s.len() ==> entries_map(s)[(#[trigger] s[i]).0@] == s[i].1@,
    decreases s.len(),
{
    if s.len() > 0 {
        let t = s.drop_last();
        assert forall|i: int, j: int| 0 <= i < j < t.len() implies (#[trigger] t[i]).0@ != (
        #[trigger] t[j]).0@ by {
            assert(t[i] == s[i] && t[j] == s[j]);
        }
        assert forall|i: int| 0 <= i < t.len() implies (#[trigger] t[i]).0@ == t[i].1@.id() by {
            assert(t[i] == s[i]);
        }
        lemma_entries_map(t);
        let last = s.last();
        assert forall|k: Seq<char>| #[trigger]
            entries_map(s).contains_key(k) <==> exists|i: int|
                0 <= i < s.len() && (#[trigger] s[i]).0@ == k by {
            if entries_map(s).contains_key(k) {
                if k == last.0@ {
                    assert(s[s.len() - 1].0@ == k);
                } else {
                    assert(entries_map(t).contains_key(k));
                    let i = choose|i: int| 0 <= i < t.len() && (#[trigger] t[i]).0@ == k;
                    assert(s[i] == t[i]);
                }
            }
            if exists|i: int| 0 <= i < s.len() && (#[trigger] s[i]).0@ == k {
                let i = choose|i: int| 0 <= i < s.len() && (#[trigger] s[i]).0@ == k;
                if i < s.len() - 1 {
                    assert(t[i] == s[i]);
                }
            }
        }
        assert forall|i: int| 0 <= i < s.len() implies entries_map(s)[(#[trigger] s[i]).0@]
            == s[i].1@ by {
            if i < s.len() - 1 {
                assert(t[i] == s[i]);
                assert(s[i].0@ != s[s.len() - 1].0@);
            }
        }
    }
}

/// Profiles kept in memory, keyed by their identifiers.
#[derive(Debug)]
pub struct MockStorage {
    entries: Vec<(String, Profile)>,
}

impl MockStorage {
    #[verifier::type_invariant]
    spec fn inv(self) -> bool {
        entries_wf(self.entries@)
    }

    /// An empty store.
    pub fn new() -> (r: MockStorage)
        ensures
            r.profiles() == Map::<Seq<char>, ProfileSpec>::empty(),
    {
        MockStorage { entries: Vec::new() }
    }

    fn find(&self, id: &String) -> (r: Option<usize>)
        ensures
            r matches Some(i) ==> i < self.entries@.len() && self.entries@[i as int].0@ == id@,
            r is None ==> forall|i: int|
                0 <= i < self.entries@.len() ==> (#[trigger] self.entries@[i]).0@ != id@,
    {
        let mut i: usize = 0;
        while i < self.entries.len()
            invariant
                i <= self.entries@.len(),
                forall|j: int| 0 <= j < i ==> (#[trigger] self.entries@[j]).0@ != id@,
            decreases self.entries@.len() - i,
        {
            if self.entries[i].0 == *id {
                return Some(i);
            }
            i = i + 1;
        }
        None
    }

    /// Walks over the stored profiles.
    pub fn iter<'a>(&'a self) -> (r: Result<MockStream<'a>, StorageError>)
        ensures
            r is Ok,
            r matches Ok(st) ==> self.profiles().dom() == profile_ids(st.remaining()).to_set(),
            r matches Ok(st) ==> profile_ids(st.remaining()).no_duplicates(),
            r matches Ok(st) ==> forall|i: int|
                0 <= i < st.remaining().len() ==> self.profiles()[(
                #[trigger] st.remaining()[i]).id()] == st.remaining()[i],
    {
        proof {
            use_type_invariant(self);
            lemma_entries_map(self.entries@);
        }
        let st = MockStream { entries: &self.entries, pos: 0 };
        proof {
            let s = self.entries@;
            let items = st.remaining();
            let ids = profile_ids(items);
            assert(items =~= s.map_values(|e: (String, Profile)| e.1@));
            assert forall|i: int| 0 <= i < items.len() implies (#[trigger] items[i]).id()
                == s[i].0@ && ids[i] == s[i].0@ && self.profiles()[items[i].id()] == items[i] by {
                assert(s[i].0@ == s[i].1@.id());
                assert(entries_map(s)[s[i].0@] == s[i].1@);
            }
            assert forall|k: Seq<char>|
                self.profiles().dom().contains(k) <==> #[trigger] ids.to_set().contains(k) by {
                if self.profiles().contains_key(k) {
                    let i = choose|i: int| 0 <= i < s.len() && (#[trigger] s[i]).0@ == k;
                    assert(ids[i] == k);
                }
                if ids.contains(k) {
                    let i = choose|i: int| 0 <= i < ids.len() && ids[i] == k;
                    assert(s[i].0@ == k);
                }
            }
            assert(self.profiles().dom() =~= ids.to_set());
            assert forall|i: int, j: int| 0 <= i < ids.len() && 0 <= j < ids.len() && i != j implies
                ids[i] != ids[j] by {
                if i < j {
                    assert(s[i].0@ != s[j].0@);
                } else {
                    assert(s[j].0@ != s[i].0@);
                }
            }
        }
        Ok(st)
    }
}

proof fn lemma_entries_map_views(s1: Seq<(String, Profile)>, s2: Seq<(String, Profile)>)
    requires
        s1.len() == s2.len(),
        forall|i: int|
            0 <= i < s1.len() ==> (#[trigger] s1[i]).0@ == s2[i].0@ && s1[i].1@ == s2[i].1@,
    ensures
        entries_map(s1) == entries_map(s2),
    decreases s1.len(),
{
    if s1.len() > 0 {
        let t1 = s1.drop_last();
        let t2 = s2.drop_last();
        assert forall|i: int| 0 <= i < t1.len() implies (#[trigger] t1[i]).0@ == t2[i].0@ && t1[i].1@
            == t2[i].1@ by {
            assert(t1[i] == s1[i] && t2[i] == s2[i]);
        }
        lemma_entries_map_views(t1, t2);
        assert(s1.last().0@ == s2.last().0@ && s1.last().1@ == s2.last().1@) by {
            assert(s1[s1.len() - 1] == s1.last());
        }
    }
}

impl Clone for MockStorage {
    fn clone(&self) -> (r: MockStorage)
        ensures
            r.profiles() == self.profiles(),
    {
        proof {
            use_type_invariant(self);
        }
        let mut entries: Vec<(String, Profile)> = Vec::new();
        let mut i: usize = 0;
        while i < self.entries.len()
            invariant
                i <= self.entries@.len(),
                entries@.len() == i,
                entries_wf(self.entries@),
                forall|j: int|
                    0 <= j < i ==> (#[trigger] entries@[j]).0@ == self.entries@[j].0@
                        && entries@[j].1@ == self.entries@[j].1@,
            decreases self.entries@.len() - i,
        {
            let e = &self.entries[i];
            entries.push((e.0.clone(), e.1.duplicate()));
            i = i + 1;
        }
        proof {
            lemma_entries_map_views(entries@, self.entries@);
            assert forall|a: int, b: int| 0 <= a < b < entries@.len() implies (
            #[trigger] entries@[a]).0@ != (#[trigger] entries@[b]).0@ by {
                assert(self.entries@[a].0@ != self.entries@[b].0@);
            }
            assert forall|a: int| 0 <= a < entries@.len() implies (#[trigger] entries@[a]).0@
                == entries@[a].1@.id() by {
                assert(self.entries@[a].0@ == self.entries@[a].1@.id());
            }
        }
        MockStorage { entries }
    }
}

impl Default for MockStorage {
    fn default() -> (r: MockStorage)
        ensures
            r.profiles() == Map::<Seq<char>, ProfileSpec>::empty(),
    {
        MockStorage::new()
    }
}

impl Storage for MockStorage {
    closed spec fn profiles(&self) -> Map<Seq<char>, ProfileSpec> {
        entries_map(self.entries@)
    }

    proof fn lemma_profiles_finite(&self) {
        lemma_entries_map_finite(self.entries@);
    }

    fn get<'a>(&'a self, id: &String) -> (r: Result<&'a Profile, StorageError>)
        ensures
            r matches Ok(p) ==> p@.id() == id@,
    {
        proof {
            use_type_invariant(self);
            lemma_entries_map(self.entries@);
        }
        match self.find(id) {
            Some(i) => Ok(&self.entries[i].1),
            None => Err(StorageError::NotFound),
        }
    }

    fn put(&mut self, i: Profile) -> (r: Result<(), StorageError>)
        ensures
            r is Ok,
    {
        proof {
            use_type_invariant(&*self);
            lemma_entries_map(self.entries@);
        }
        let key = i.id();
        let ghost old_entries = self.entries@;
        let ghost v = i@;
        match self.find(&key) {
            Some(idx) => {
                let ghost new_entries = old_entries.update(idx as int, (key, i));
                assert(entries_wf(new_entries)) by {
                    assert forall|a: int, b: int| 0 <= a < b < new_entries.len() implies (
                    #[trigger] new_entries[a]).0@ != (#[trigger] new_entries[b]).0@ by {
                        if a != idx && b != idx {
                            assert(new_entries[a] == old_entries[a]);
                            assert(new_entries[b] == old_entries[b]);
                        } else if a == idx {
                            assert(new_entries[b] == old_entries[b]);
                        } else {
                            assert(new_entries[a] == old_entries[a]);
                        }
                    }
                }
                let mut entries = Vec::new();
                std::mem::swap(&mut entries, &mut self.entries);
                entries.set(idx, (key, i));
                self.entries = entries;
                proof {
                    lemma_entries_map(self.entries@);
                    assert(self.entries@ == new_entries);
                    let m_old = entries_map(old_entries);
                    let m_new = entries_map(new_entries);
                    assert forall|k: Seq<char>| #[trigger]
                        m_new.contains_key(k) <==> m_old.insert(v.id(), v).contains_key(k) by {
                        if m_new.contains_key(k) {
                            let j = choose|j: int|
                                0 <= j < new_entries.len() && (#[trigger] new_entries[j]).0@ == k;
                            if j != idx {
                                assert(new_entries[j] == old_entries[j]);
                            }
                        }
                        if m_old.contains_key(k) && k != v.id() {
                            let j = choose|j: int|
                                0 <= j < old_entries.len() && (#[trigger] old_entries[j]).0@ == k;
                            assert(new_entries[j] == old_entries[j]);
                        }
                        if k == v.id() {
                            assert(new_entries[idx as int].0@ == k);
                        }
                    }
                    assert forall|k: Seq<char>| #[trigger]
                        m_new.contains_key(k) implies m_new[k] == m_old.insert(v.id(), v)[k] by {
                        let j = choose|j: int|
                            0 <= j < new_entries.len() && (#[trigger] new_entries[j]).0@ == k;
                        if j != idx {
                            assert(new_entries[j] == old_entries[j]);
                        }
                    }
                    assert(m_new =~= m_old.insert(v.id(), v));
                }
            },
            None => {
                let ghost new_entries = old_entries.push((key, i));
                assert(entries_wf(new_entries)) by {
                    assert forall|a: int, b: int| 0 <= a < b < new_entries.len() implies (
                    #[trigger] new_entries[a]).0@ != (#[trigger] new_entries[b]).0@ by {
                        assert(new_entries[a] == old_entries[a]);
                        if b < old_entries.len() {
                            assert(new_entries[b] == old_entries[b]);
                        }
                    }
                    assert forall|a: int| 0 <= a < new_entries.len() implies (
                    #[trigger] new_entries[a]).0@ == new_entries[a].1@.id() by {
                        if a < old_entries.len() {
                            assert(new_entries[a] == old_entries[a]);
                        }
                    }
                }
                let mut entries = Vec::new();
                std::mem::swap(&mut entries, &mut self.entries);
                entries.push((key, i));
                self.entries = entries;
                proof {
                    assert(self.entries@ == new_entries);
                    assert(new_entries.drop_last() =~= old_entries);
                }
            },
        }
        Ok(())
    }

    fn del(&mut self, id: &String) -> (r: Result<Profile, StorageError>) {
        proof {
            use_type_invariant(&*self);
            lemma_entries_map(self.entries@);
        }
        let ghost old_entries = self.entries@;
        match self.find(id) {
            Some(idx) => {
                let ghost new_entries = old_entries.remove(idx as int);
                assert(entries_wf(new_entries)) by {
                    assert forall|a: int, b: int| 0 <= a < b < new_entries.len() implies (
                    #[trigger] new_entries[a]).0@ != (#[trigger] new_entries[b]).0@ by {
                        let a2 = if a < idx { a } else { a + 1 };
                        let b2 = if b < idx { b } else { b + 1 };
                        assert(new_entries[a] == old_entries[a2]);
                        assert(new_entries[b] == old_entries[b2]);
                    }
                    assert forall|a: int| 0 <= a < new_entries.len() implies (
                    #[trigger] new_entries[a]).0@ == new_entries[a].1@.id() by {
                        let a2 = if a < idx { a } else { a + 1 };
                        assert(new_entries[a] == old_entries[a2]);
                    }
                }
                let mut entries = Vec::new();
                std::mem::swap(&mut entries, &mut self.entries);
                let (_k, p) = entries.remove(idx);
                self.entries = entries;
                proof {
                    lemma_entries_map(self.entries@);
                    assert(self.entries@ == new_entries);
                    let m_old = entries_map(old_entries);
                    let m_new = entries_map(new_entries);
                    assert forall|k: Seq<char>| #[trigger]
                        m_new.contains_key(k) <==> m_old.remove(id@).contains_key(k) by {
                        if m_new.contains_key(k) {
                            let j = choose|j: int|
                                0 <= j < new_entries.len() && (#[trigger] new_entries[j]).0@ == k;
                            let j2 = if j < idx { j } else { j + 1 };
                            assert(new_entries[j] == old_entries[j2]);
                        }
                        if m_old.contains_key(k) && k != id@ {
                            let j = choose|j: int|
                                0 <= j < old_entries.len() && (#[trigger] old_entries[j]).0@ == k;
                            assert(j != idx);
                            let j2 = if j < idx { j } else { j - 1 };
                            assert(new_entries[j2] == old_entries[j]);
                        }
                    }
                    assert forall|k: Seq<char>| #[trigger]
                        m_new.contains_key(k) implies m_new[k] == m_old.remove(id@)[k] by {
                        let j = choose|j: int|
                            0 <= j < new_entries.len() && (#[trigger] new_entries[j]).0@ == k;
                        let j2 = if j < idx { j } else { j + 1 };
                        assert(new_entries[j] == old_entries[j2]);
                    }
                    assert(m_new =~= m_old.remove(id@));
                }
                Ok(p)
            },
            None => Err(StorageError::NotFound),
        }
    }
}

/// A walk over the profiles of a `MockStorage`.
pub struct MockStream<'a> {
    entries: &'a Vec<(String, Profile)>,
    pos: usize,
}

impl<'a> MockStream<'a> {
    #[verifier::type_invariant]
    spec fn inv(self) -> bool {
        self.pos <= self.entries@.len()
    }

    /// The profiles not yet handed out, in the order they will come.
    pub closed spec fn remaining(self) -> Seq<ProfileSpec> {
        self.entries@.subrange(self.pos as int, self.entries@.len() as int).map_values(
            |e: (String, Profile)| e.1@,
        )
    }

    /// The next profile, or `None` once all have been handed out.
    pub fn next(&mut self) -> (r: Option<&'a Profile>)
        ensures
            old(self).remaining().len() == 0 ==> r is None && final(self).remaining() == old(self).remaining(),
            old(self).remaining().len() > 0 ==> (r matches Some(p) && p@ == old(self).remaining()[0]
                && final(self).remaining() == old(self).remaining().drop_first()),
    {
        proof {
            use_type_invariant(&*self);
        }
        if self.pos < self.entries.len() {
            let p = &self.entries[self.pos].1;
            let ghost before = self.remaining();
            self.pos = self.pos + 1;
            assert(self.remaining() =~= before.drop_first());
            Some(p)
        } else {
            None
        }
    }
}

} // verus!
