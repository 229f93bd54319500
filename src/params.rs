//! An insertion-ordered map from strings to strings, used for query
//! parameters and headers.
use vstd::prelude::*;

verus! {

/// The pairs of `s` as a map; a later pair for a key wins over an earlier one.
pub open spec fn map_of(s: Seq<(Seq<char>, Seq<char>)>) -> Map<Seq<char>, Seq<char>>
    decreases s.len(),
{
    if s.len() == 0 {
        Map::empty()
    } else {
        map_of(s.drop_last()).insert(s.last().0, s.last().1)
    }
}

/// No key occurs twice in `s`.
pub open spec fn unique_keys(s: Seq<(Seq<char>, Seq<char>)>) -> bool {
    forall|i: int, j: int| 0 <= i < j < s.len() ==> s[i].0 != s[j].0
}

/// Every pair of `required` is present in `given`: extra keys of `given` are ignored.
pub open spec fn is_submap(required: Map<Seq<char>, Seq<char>>, given: Map<Seq<char>, Seq<char>>) -> bool {
    forall|k: Seq<char>|
        #[trigger] required.contains_key(k) ==> given.contains_key(k) && given[k] == required[k]
}

proof fn lemma_map_of_keys(s: Seq<(Seq<char>, Seq<char>)>, k: Seq<char>)
    ensures
        map_of(s).contains_key(k) <==> exists|j: int| 0 <= j < s.len() && s[j].0 == k,
    decreases s.len(),
{
    if s.len() > 0 {
        lemma_map_of_keys(s.drop_last(), k);
        if map_of(s.drop_last()).contains_key(k) {
            let j = choose|j: int| 0 <= j < s.drop_last().len() && s.drop_last()[j].0 == k;
            assert(s[j].0 == k);
        }
        if exists|j: int| 0 <= j < s.len() && s[j].0 == k {
            let j = choose|j: int| 0 <= j < s.len() && s[j].0 == k;
            if j < s.len() - 1 {
                assert(s.drop_last()[j].0 == k);
            }
        }
    }
}

proof fn lemma_map_of_value(s: Seq<(Seq<char>, Seq<char>)>, j: int)
    requires
        unique_keys(s),
        0 <= j < s.len(),
    ensures
        map_of(s).contains_key(s[j].0),
        map_of(s)[s[j].0] == s[j].1,
    decreases s.len(),
{
    if j < s.len() - 1 {
        assert(s.drop_last()[j] == s[j]);
        lemma_map_of_value(s.drop_last(), j);
    }
}

proof fn lemma_map_of_update(s: Seq<(Seq<char>, Seq<char>)>, j: int, v: Seq<char>)
    requires
        unique_keys(s),
        0 <= j < s.len(),
    ensures
        map_of(s.update(j, (s[j].0, v))) == map_of(s).insert(s[j].0, v),
    decreases s.len(),
{
    let t = s.update(j, (s[j].0, v));
    if j == s.len() - 1 {
        assert(t.drop_last() =~= s.drop_last());
        assert(map_of(t) =~= map_of(s).insert(s[j].0, v));
    } else {
        assert(t.drop_last() =~= s.drop_last().update(j, (s[j].0, v)));
        lemma_map_of_update(s.drop_last(), j, v);
        assert(s.last().0 != s[j].0);
        assert(map_of(t) =~= map_of(s).insert(s[j].0, v));
    }
}

/// A map from strings to strings that keeps its keys in order of first insertion.
pub struct StringMap {
    entries: Vec<(String, String)>,
}

impl View for StringMap {
    type V = Map<Seq<char>, Seq<char>>;

    closed spec fn view(&self) -> Map<Seq<char>, Seq<char>> {
        map_of(self.pairs())
    }
}

impl StringMap {
    /// The entries, in order of first insertion.
    pub closed spec fn pairs(&self) -> Seq<(Seq<char>, Seq<char>)> {
        self.entries@.map_values(|p: (String, String)| (p.0@, p.1@))
    }

    /// No key is stored twice.
    #[verifier::type_invariant]
    closed spec fn inv(&self) -> bool {
        unique_keys(self.pairs())
    }

    /// An empty map.
    pub fn new() -> (r: StringMap)
        ensures
            r@ == Map::<Seq<char>, Seq<char>>::empty(),
    {
        let r = StringMap { entries: Vec::new() };
        assert(r.pairs() =~= Seq::empty());
        r
    }

    /// The number of keys.
    pub fn len(&self) -> (r: usize)
        ensures
            r == self@.len(),
            r == self.pairs().len(),
    {
        proof {
            use_type_invariant(self);
            self.lemma_dom_len();
        }
        self.entries.len()
    }

    proof fn lemma_dom_len(&self)
        requires
            self.inv(),
        ensures
            self@.dom().finite(),
            self@.len() == self.pairs().len(),
    {
        lemma_map_of_dom_len(self.pairs());
    }

    /// The position of `key` among the entries, if it is there.
    fn position(&self, key: &String) -> (r: Option<usize>)
        ensures
            match r {
                Some(j) => j < self.pairs().len() && self.pairs()[j as int].0 == key@,
                None => forall|j: int| 0 <= j < self.pairs().len() ==> self.pairs()[j].0 != key@,
            },
    {
        let mut i: usize = 0;
        while i < self.entries.len()
            invariant
                i <= self.entries.len(),
                forall|j: int| 0 <= j < i ==> self.pairs()[j].0 != key@,
            decreases self.entries.len() - i,
        {
            if self.entries[i].0 == *key {
                return Some(i);
            }
            i = i + 1;
        }
        None
    }

    /// The value stored under `key`.
    pub fn get(&self, key: &String) -> (r: Option<&String>)
        ensures
            match r {
                Some(v) => self@.contains_key(key@) && self@[key@] == v@,
                None => !self@.contains_key(key@),
            },
    {
        proof {
            use_type_invariant(self);
            lemma_map_of_keys(self.pairs(), key@);
        }
        match self.position(key) {
            Some(j) => {
                proof {
                    lemma_map_of_value(self.pairs(), j as int);
                }
                Some(&self.entries[j].1)
            },
            None => None,
        }
    }

    /// Whether `key` is present.
    pub fn contains_key(&self, key: &String) -> (r: bool)
        ensures
            r == self@.contains_key(key@),
    {
        self.get(key).is_some()
    }

    /// Stores `value` under `key`, replacing an earlier value; a new key goes last.
    pub fn insert(&mut self, key: String, value: String)
        ensures
            final(self)@ == old(self)@.insert(key@, value@),
    {
        proof {
            use_type_invariant(&*self);
        }
        let ghost s = self.pairs();
        let pos = self.position(&key);
        let mut entries: Vec<(String, String)> = Vec::new();
        let mut i: usize = 0;
        while i < self.entries.len()
            invariant
                s == self.pairs(),
                i <= self.entries.len(),
                entries@.len() == i,
                pos matches Some(p) ==> p < s.len() && s[p as int].0 == key@,
                forall|j: int|
                    0 <= j < i ==> (entries@[j].0@, entries@[j].1@) == if pos == Some(j as usize) {
                        (key@, value@)
                    } else {
                        s[j]
                    },
            decreases self.entries.len() - i,
        {
            if pos == Some(i) {
                entries.push((key.clone(), value.clone()));
            } else {
                entries.push((self.entries[i].0.clone(), self.entries[i].1.clone()));
            }
            i = i + 1;
        }
        let ghost t = entries@.map_values(|p: (String, String)| (p.0@, p.1@));
        match pos {
            Some(j) => {
                proof {
                    lemma_map_of_update(s, j as int, value@);
                    assert(t =~= s.update(j as int, (s[j as int].0, value@)));
                }
                self.entries = entries;
            },
            None => {
                entries.push((key, value));
                proof {
                    let u = entries@.map_values(|p: (String, String)| (p.0@, p.1@));
                    assert(t =~= s);
                    assert(u =~= s.push((key@, value@)));
                    assert(u.drop_last() =~= s);
                }
                self.entries = entries;
            },
        }
    }

    /// Whether every pair of `self` is present in `given`.
    pub fn is_subset_of(&self, given: &StringMap) -> (r: bool)
        ensures
            r == is_submap(self@, given@),
    {
        proof {
            use_type_invariant(self);
        }
        let mut i: usize = 0;
        while i < self.entries.len()
            invariant
                self.inv(),
                i <= self.entries.len(),
                forall|j: int|
                    0 <= j < i ==> given@.contains_key(#[trigger] self.pairs()[j].0) && given@[self.pairs()[j].0]
                        == self.pairs()[j].1,
            decreases self.entries.len() - i,
        {
            let (k, v) = self.entry(i);
            match given.get(k) {
                Some(w) => {
                    if *w != *v {
                        proof {
                            lemma_map_of_value(self.pairs(), i as int);
                        }
                        return false;
                    }
                },
                None => {
                    proof {
                        lemma_map_of_value(self.pairs(), i as int);
                    }
                    return false;
                },
            }
            i = i + 1;
        }
        assert forall|k: Seq<char>| #[trigger] self@.contains_key(k) implies given@.contains_key(k)
            && given@[k] == self@[k] by {
            lemma_map_of_keys(self.pairs(), k);
            let j = choose|j: int| 0 <= j < self.pairs().len() && self.pairs()[j].0 == k;
            lemma_map_of_value(self.pairs(), j);
        }
        true
    }

    /// A copy of the map, with its entries in the same order.
    pub fn copy(&self) -> (r: StringMap)
        ensures
            r.pairs() == self.pairs(),
            r@ == self@,
    {
        proof {
            use_type_invariant(self);
        }
        let mut entries: Vec<(String, String)> = Vec::new();
        let mut i: usize = 0;
        while i < self.entries.len()
            invariant
                i <= self.entries.len(),
                entries@.len() == i,
                forall|j: int|
                    0 <= j < i ==> entries@[j].0@ == self.entries@[j].0@ && entries@[j].1@
                        == self.entries@[j].1@,
            decreases self.entries.len() - i,
        {
            let k = self.entries[i].0.clone();
            let v = self.entries[i].1.clone();
            entries.push((k, v));
            i = i + 1;
        }
        assert(entries@.map_values(|p: (String, String)| (p.0@, p.1@)) =~= self.pairs());
        let r = StringMap { entries };
        assert(r.pairs() =~= self.pairs());
        r
    }

    /// The key and value of the entry at `index`.
    pub fn entry(&self, index: usize) -> (r: (&String, &String))
        requires
            index < self.pairs().len(),
        ensures
            r.0@ == self.pairs()[index as int].0,
            r.1@ == self.pairs()[index as int].1,
            self@.contains_key(r.0@),
            self@[r.0@] == r.1@,
    {
        proof {
            use_type_invariant(self);
            lemma_map_of_value(self.pairs(), index as int);
        }
        (&self.entries[index].0, &self.entries[index].1)
    }
}

proof fn lemma_map_of_dom_len(s: Seq<(Seq<char>, Seq<char>)>)
    requires
        unique_keys(s),
    ensures
        map_of(s).dom().finite(),
        map_of(s).len() == s.len(),
    decreases s.len(),
{
    if s.len() > 0 {
        let t = s.drop_last();
        assert(unique_keys(t));
        lemma_map_of_dom_len(t);
        lemma_map_of_keys(t, s.last().0);
        if map_of(t).contains_key(s.last().0) {
            let j = choose|j: int| 0 <= j < t.len() && t[j].0 == s.last().0;
            assert(s[j].0 == s[s.len() - 1].0);
        }
    }
}

} // verus!
