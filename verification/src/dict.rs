//! Text-keyed maps that keep the extraction results of a template.
//!
//! Each map is an association list; its meaning is the map in which the
//! last entry for a key wins. The operations never create a second entry for
//! a key.

use vstd::prelude::*;

verus! {

/// The map denoted by an association list: later entries override earlier ones.
pub open spec fn pairs_to_map<V>(s: Seq<(Seq<char>, V)>) -> Map<Seq<char>, V>
    decreases s.len(),
{
    if s.len() == 0 {
        Map::empty()
    } else {
        pairs_to_map(s.drop_last()).insert(s.last().0, s.last().1)
    }
}

/// `i` is the last index of `s` whose key is `k`.
pub open spec fn last_key_index<V>(s: Seq<(Seq<char>, V)>, k: Seq<char>, i: int) -> bool {
    &&& 0 <= i < s.len()
    &&& s[i].0 == k
    &&& forall|j: int| i < j < s.len() ==> s[j].0 != k
}

proof fn lemma_pairs_push<V>(s: Seq<(Seq<char>, V)>, k: Seq<char>, v: V)
    ensures
        pairs_to_map(s.push((k, v))) == pairs_to_map(s).insert(k, v),
{
    assert(s.push((k, v)).drop_last() =~= s);
}

proof fn lemma_pairs_absent<V>(s: Seq<(Seq<char>, V)>, k: Seq<char>)
    requires
        forall|j: int| 0 <= j < s.len() ==> s[j].0 != k,
    ensures
        !pairs_to_map(s).contains_key(k),
    decreases s.len(),
{
    if s.len() > 0 {
        lemma_pairs_absent(s.drop_last(), k);
    }
}

proof fn lemma_pairs_last<V>(s: Seq<(Seq<char>, V)>, k: Seq<char>, i: int)
    requires
        last_key_index(s, k, i),
    ensures
        pairs_to_map(s).contains_key(k),
        pairs_to_map(s)[k] == s[i].1,
    decreases s.len(),
{
    if i < s.len() - 1 {
        lemma_pairs_last(s.drop_last(), k, i);
    }
}

proof fn lemma_pairs_update<V>(s: Seq<(Seq<char>, V)>, k: Seq<char>, i: int, v: V)
    requires
        last_key_index(s, k, i),
    ensures
        pairs_to_map(s.update(i, (k, v))) == pairs_to_map(s).insert(k, v),
    decreases s.len(),
{
    let t = s.update(i, (k, v));
    if i == s.len() - 1 {
        assert(t.drop_last() =~= s.drop_last());
        assert(pairs_to_map(t) =~= pairs_to_map(s).insert(k, v));
    } else {
        assert(t.drop_last() =~= s.drop_last().update(i, (k, v)));
        lemma_pairs_update(s.drop_last(), k, i, v);
        assert(pairs_to_map(t) =~= pairs_to_map(s).insert(k, v));
    }
}

/// A map from texts to texts.
pub struct TextMap {
    entries: Vec<(String, String)>,
}

impl View for TextMap {
    type V = Map<Seq<char>, Seq<char>>;

    /// The map the entries stand for.
    closed spec fn view(&self) -> Map<Seq<char>, Seq<char>> {
        pairs_to_map(self.pairs())
    }
}

impl TextMap {
    /// The entries as views, in the order they were first inserted.
    pub closed spec fn pairs(&self) -> Seq<(Seq<char>, Seq<char>)> {
        self.entries@.map_values(|e: (String, String)| (e.0@, e.1@))
    }


    /// The empty map.
    pub fn new() -> (r: Self)
        ensures
            r.view() == Map::<Seq<char>, Seq<char>>::empty(),
    {
        let r = TextMap { entries: Vec::new() };
        assert(r.pairs() =~= Seq::<(Seq<char>, Seq<char>)>::empty());
        r
    }

    fn find(&self, key: &String) -> (r: Option<usize>)
        ensures
            match r {
                Some(i) => last_key_index(self.pairs(), key@, i as int),
                None => forall|j: int| 0 <= j < self.pairs().len() ==> self.pairs()[j].0 != key@,
            },
    {
        let mut i = self.entries.len();
        while i > 0
            invariant
                i <= self.entries@.len(),
                forall|j: int| i <= j < self.pairs().len() ==> self.pairs()[j].0 != key@,
            decreases i,
        {
            i = i - 1;
            if self.entries[i].0 == *key {
                return Some(i);
            }
        }
        None
    }

    /// The value stored for `key`, if any.
    pub fn get(&self, key: &str) -> (r: Option<String>)
        ensures
            match r {
                Some(v) => self.view().contains_key(key@) && v@ == self.view()[key@],
                None => !self.view().contains_key(key@),
            },
    {
        let k = key.to_owned();
        match self.find(&k) {
            Some(i) => {
                proof {
                    lemma_pairs_last(self.pairs(), key@, i as int);
                }
                Some(self.entries[i].1.clone())
            },
            None => {
                proof {
                    lemma_pairs_absent(self.pairs(), key@);
                }
                None
            },
        }
    }

    /// Stores `value` under `key`, replacing any earlier value.
    pub fn insert(&mut self, key: String, value: String)
        ensures
            final(self).view() == old(self).view().insert(key@, value@),
    {
        match self.find(&key) {
            Some(i) => {
                proof {
                    lemma_pairs_update(self.pairs(), key@, i as int, value@);
                }
                let ghost before = self.pairs();
                self.entries.set(i, (key, value));
                assert(self.pairs() =~= before.update(i as int, (key@, value@)));
            },
            None => {
                proof {
                    lemma_pairs_push(self.pairs(), key@, value@);
                }
                let ghost before = self.pairs();
                let ghost kv = (key@, value@);
                self.entries.push((key, value));
                assert(self.pairs() =~= before.push(kv));
            },
        }
    }

    /// The entries, each key once, in the order the keys were first stored.
    pub fn entries(&self) -> (r: &Vec<(String, String)>)
        ensures
            r@.map_values(|e: (String, String)| (e.0@, e.1@)) == self.pairs(),
    {
        &self.entries
    }
}

/// A map from texts to lists of texts.
pub struct TextListMap {
    entries: Vec<(String, Vec<String>)>,
}

impl View for TextListMap {
    type V = Map<Seq<char>, Seq<Seq<char>>>;

    /// The map the entries stand for.
    closed spec fn view(&self) -> Map<Seq<char>, Seq<Seq<char>>> {
        pairs_to_map(self.pairs())
    }
}

impl TextListMap {
    /// The entries as views, in the order they were first inserted.
    pub closed spec fn pairs(&self) -> Seq<(Seq<char>, Seq<Seq<char>>)> {
        self.entries@.map_values(|e: (String, Vec<String>)| (e.0@, e.1.deep_view()))
    }


    /// The empty map.
    pub fn new() -> (r: Self)
        ensures
            r.view() == Map::<Seq<char>, Seq<Seq<char>>>::empty(),
    {
        let r = TextListMap { entries: Vec::new() };
        assert(r.pairs() =~= Seq::<(Seq<char>, Seq<Seq<char>>)>::empty());
        r
    }

    fn find(&self, key: &String) -> (r: Option<usize>)
        ensures
            match r {
                Some(i) => last_key_index(self.pairs(), key@, i as int),
                None => forall|j: int| 0 <= j < self.pairs().len() ==> self.pairs()[j].0 != key@,
            },
    {
        let mut i = self.entries.len();
        while i > 0
            invariant
                i <= self.entries@.len(),
                forall|j: int| i <= j < self.pairs().len() ==> self.pairs()[j].0 != key@,
            decreases i,
        {
            i = i - 1;
            if self.entries[i].0 == *key {
                return Some(i);
            }
        }
        None
    }

    /// The list stored for `key`, if any.
    pub fn get(&self, key: &str) -> (r: Option<Vec<String>>)
        ensures
            match r {
                Some(v) => self.view().contains_key(key@) && v.deep_view() == self.view()[key@],
                None => !self.view().contains_key(key@),
            },
    {
        let k = key.to_owned();
        match self.find(&k) {
            Some(i) => {
                proof {
                    lemma_pairs_last(self.pairs(), key@, i as int);
                }
                let v = self.entries[i].1.clone();
                assert(v.deep_view() =~= self.entries@[i as int].1.deep_view());
                Some(v)
            },
            None => {
                proof {
                    lemma_pairs_absent(self.pairs(), key@);
                }
                None
            },
        }
    }

    /// Stores `value` under `key`, replacing any earlier list.
    pub fn insert(&mut self, key: String, value: Vec<String>)
        ensures
            final(self).view() == old(self).view().insert(key@, value.deep_view()),
    {
        match self.find(&key) {
            Some(i) => {
                proof {
                    lemma_pairs_update(self.pairs(), key@, i as int, value.deep_view());
                }
                let ghost before = self.pairs();
                let ghost kv = (key@, value.deep_view());
                self.entries.set(i, (key, value));
                assert(self.pairs() =~= before.update(i as int, kv));
            },
            None => {
                proof {
                    lemma_pairs_push(self.pairs(), key@, value.deep_view());
                }
                let ghost before = self.pairs();
                let ghost kv = (key@, value.deep_view());
                self.entries.push((key, value));
                assert(self.pairs() =~= before.push(kv));
            },
        }
    }

    /// Appends `item` to the list stored for `key`, which must be present.
    pub fn push(&mut self, key: &String, item: String)
        requires
            old(self).view().contains_key(key@),
        ensures
            final(self).view() == old(self).view().insert(key@, old(self).view()[key@].push(item@)),
    {
        match self.find(key) {
            Some(i) => {
                proof {
                    lemma_pairs_last(self.pairs(), key@, i as int);
                    lemma_pairs_update(
                        self.pairs(),
                        key@,
                        i as int,
                        self.pairs()[i as int].1.push(item@),
                    );
                }
                let ghost before = self.pairs();
                let (k, mut list) = self.entries.remove(i);
                let ghost old_list = list.deep_view();
                list.push(item);
                assert(list.deep_view() =~= old_list.push(item@));
                let ghost kv = (k@, list.deep_view());
                self.entries.insert(i, (k, list));
                assert(self.pairs() =~= before.update(i as int, kv));
            },
            None => {
                proof {
                    lemma_pairs_absent(self.pairs(), key@);
                }
            },
        }
    }

    /// The entries, each key once, in the order the keys were first stored.
    pub fn entries(&self) -> (r: &Vec<(String, Vec<String>)>)
        ensures
            r@.map_values(|e: (String, Vec<String>)| (e.0@, e.1.deep_view())) == self.pairs(),
    {
        &self.entries
    }
}

} // verus!
