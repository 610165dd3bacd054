use vstd::prelude::*;

verus! {

/// The mapping that a list of (path, fingerprint) pairs stands for: each key
/// maps to the value of its last pair.
pub open spec fn map_of(s: Seq<(String, String)>) -> Map<Seq<char>, Seq<char>>
    decreases s.len(),
{
    if s.len() == 0 {
        Map::empty()
    } else {
        map_of(s.drop_last()).insert(s.last().0@, s.last().1@)
    }
}

/// No two pairs of `s` have the same key.
pub open spec fn keys_unique(s: Seq<(String, String)>) -> bool {
    forall|i: int, j: int| 0 <= i < j < s.len() ==> #[trigger] s[i].0@ != #[trigger] s[j].0@
}

proof fn lemma_map_of_contains(s: Seq<(String, String)>, k: Seq<char>)
    ensures
        map_of(s).contains_key(k) <==> exists|i: int| 0 <= i < s.len() && #[trigger] s[i].0@ == k,
    decreases s.len(),
{
    if s.len() > 0 {
        lemma_map_of_contains(s.drop_last(), k);
        if map_of(s.drop_last()).contains_key(k) {
            let i = choose|i: int| 0 <= i < s.drop_last().len() && #[trigger] s.drop_last()[i].0@ == k;
            assert(s[i].0@ == k);
        }
        if exists|i: int| 0 <= i < s.len() && #[trigger] s[i].0@ == k {
            let i = choose|i: int| 0 <= i < s.len() && #[trigger] s[i].0@ == k;
            if i < s.len() - 1 {
                assert(s.drop_last()[i].0@ == k);
            }
        }
    }
}

proof fn lemma_map_of_at(s: Seq<(String, String)>, i: int)
    requires
        keys_unique(s),
        0 <= i < s.len(),
    ensures
        map_of(s).contains_key(s[i].0@),
        map_of(s)[s[i].0@] == s[i].1@,
    decreases s.len(),
{
    if i < s.len() - 1 {
        lemma_map_of_at(s.drop_last(), i);
        assert(s.drop_last()[i] == s[i]);
        assert(s[i].0@ != s[s.len() - 1].0@);
    }
}

proof fn lemma_map_of_update(s: Seq<(String, String)>, i: int, v: String)
    requires
        keys_unique(s),
        0 <= i < s.len(),
    ensures
        map_of(s.update(i, (s[i].0, v))) == map_of(s).insert(s[i].0@, v@),
    decreases s.len(),
{
    let t = s.update(i, (s[i].0, v));
    if i == s.len() - 1 {
        assert(t.drop_last() =~= s.drop_last());
        assert(map_of(t) =~= map_of(s).insert(s[i].0@, v@));
    } else {
        assert(t.drop_last() =~= s.drop_last().update(i, (s[i].0, v)));
        lemma_map_of_update(s.drop_last(), i, v);
        assert(s[i].0@ != s[s.len() - 1].0@);
        assert(map_of(t) =~= map_of(s).insert(s[i].0@, v@));
    }
}

proof fn lemma_map_of_len(s: Seq<(String, String)>)
    requires
        keys_unique(s),
    ensures
        map_of(s).dom().finite(),
        map_of(s).len() == s.len(),
    decreases s.len(),
{
    if s.len() > 0 {
        lemma_map_of_len(s.drop_last());
        lemma_map_of_contains(s.drop_last(), s.last().0@);
        if map_of(s.drop_last()).contains_key(s.last().0@) {
            let i = choose|i: int|
                0 <= i < s.drop_last().len() && #[trigger] s.drop_last()[i].0@ == s.last().0@;
            assert(s[i].0@ == s[s.len() - 1].0@);
        }
    }
}

/// Two lists of pairs, each naming every path once, that hold the same
/// pairs stand for the same mapping, whatever their order: a namespace
/// written out and read back in another order is the namespace it was.
pub proof fn lemma_pairs_order_irrelevant(s1: Seq<(String, String)>, s2: Seq<(String, String)>)
    requires
        keys_unique(s1),
        keys_unique(s2),
        forall|i: int|
            0 <= i < s1.len() ==> exists|j: int|
                0 <= j < s2.len() && s2[j].0@ == (#[trigger] s1[i]).0@ && s2[j].1@ == s1[i].1@,
        forall|j: int|
            0 <= j < s2.len() ==> exists|i: int|
                0 <= i < s1.len() && s1[i].0@ == (#[trigger] s2[j]).0@ && s1[i].1@ == s2[j].1@,
    ensures
        map_of(s1) == map_of(s2),
{
    assert forall|k: Seq<char>| #[trigger] map_of(s1).contains_key(k) implies map_of(s2).contains_key(
        k,
    ) && map_of(s2)[k] == map_of(s1)[k] by {
        lemma_map_of_contains(s1, k);
        let i = choose|i: int| 0 <= i < s1.len() && #[trigger] s1[i].0@ == k;
        let j = choose|j: int| 0 <= j < s2.len() && s2[j].0@ == (#[trigger] s1[i]).0@ && s2[j].1@ == s1[i].1@;
        lemma_map_of_at(s1, i);
        lemma_map_of_at(s2, j);
    }
    assert forall|k: Seq<char>| #[trigger] map_of(s2).contains_key(k) implies map_of(s1).contains_key(
        k,
    ) by {
        lemma_map_of_contains(s2, k);
        let j = choose|j: int| 0 <= j < s2.len() && #[trigger] s2[j].0@ == k;
        let i = choose|i: int| 0 <= i < s1.len() && s1[i].0@ == (#[trigger] s2[j]).0@ && s1[i].1@ == s2[j].1@;
        lemma_map_of_contains(s1, k);
    }
    assert(map_of(s1) =~= map_of(s2));
}

/// One namespace of the ledger: remote path to fingerprint, each path at most once.
pub struct HashTable {
    entries: Vec<(String, String)>,
}

impl View for HashTable {
    type V = Map<Seq<char>, Seq<char>>;

    closed spec fn view(&self) -> Map<Seq<char>, Seq<char>> {
        map_of(self.entries@)
    }
}

impl HashTable {
    #[verifier::type_invariant]
    spec fn paths_unique(self) -> bool {
        keys_unique(self.entries@)
    }

    /// An empty table.
    pub fn new() -> (r: HashTable)
        ensures
            r@ == Map::<Seq<char>, Seq<char>>::empty(),
    {
        HashTable { entries: Vec::new() }
    }

    /// The position of `key` among the entries, if it is there.
    fn position(&self, key: &String) -> (r: Option<usize>)
        ensures
            match r {
                Some(i) => i < self.entries@.len() && self.entries@[i as int].0@ == key@,
                None => forall|i: int|
                    0 <= i < self.entries@.len() ==> #[trigger] self.entries@[i].0@ != key@,
            },
    {
        let mut i: usize = 0;
        while i < self.entries.len()
            invariant
                i <= self.entries@.len(),
                forall|j: int| 0 <= j < i ==> #[trigger] self.entries@[j].0@ != key@,
            decreases self.entries@.len() - i,
        {
            if self.entries[i].0 == *key {
                return Some(i);
            }
            i = i + 1;
        }
        None
    }

    /// The fingerprint recorded for `key`, if any.
    pub fn get(&self, key: &String) -> (r: Option<&String>)
        ensures
            match r {
                Some(v) => self@.contains_key(key@) && self@[key@] == v@,
                None => !self@.contains_key(key@),
            },
    {
        proof {
            use_type_invariant(self);
            lemma_map_of_contains(self.entries@, key@);
        }
        match self.position(key) {
            Some(i) => {
                proof {
                    lemma_map_of_at(self.entries@, i as int);
                }
                Some(&self.entries[i].1)
            },
            None => None,
        }
    }

    /// Records `value` for `key`, replacing what was there.
    pub fn insert(&mut self, key: String, value: String)
        ensures
            final(self)@ == old(self)@.insert(key@, value@),
    {
        proof {
            use_type_invariant(&*self);
        }
        let pos = self.position(&key);
        let ghost s = self.entries@;
        let mut e: Vec<(String, String)> = Vec::new();
        std::mem::swap(&mut self.entries, &mut e);
        match pos {
            Some(i) => {
                let k = e[i].0.clone();
                proof {
                    lemma_map_of_update(s, i as int, value);
                    assert(s.update(i as int, (s[i as int].0, value)) =~= s.update(
                        i as int,
                        (k, value),
                    ));
                }
                e.set(i, (k, value));
                proof {
                    assert(forall|j: int| 0 <= j < e@.len() ==> #[trigger] e@[j].0@ == s[j].0@);
                }
            },
            None => {
                e.push((key, value));
                proof {
                    assert(e@.drop_last() =~= s);
                }
            },
        }
        self.entries = e;
    }

    /// The number of paths recorded.
    pub fn len(&self) -> (r: usize)
        ensures
            r == self@.len(),
    {
        proof {
            use_type_invariant(self);
            lemma_map_of_len(self.entries@);
        }
        self.entries.len()
    }

    /// The recorded (path, fingerprint) pairs, each path once.
    pub fn entries(&self) -> (r: Vec<(String, String)>)
        ensures
            keys_unique(r@),
            map_of(r@) == self@,
    {
        proof {
            use_type_invariant(self);
        }
        let mut out: Vec<(String, String)> = Vec::new();
        let mut i: usize = 0;
        while i < self.entries.len()
            invariant
                i <= self.entries@.len(),
                out@ == self.entries@.take(i as int),
            decreases self.entries@.len() - i,
        {
            let k = self.entries[i].0.clone();
            let v = self.entries[i].1.clone();
            proof {
                assert(self.entries@.take(i + 1) =~= self.entries@.take(i as int).push((k, v)));
            }
            out.push((k, v));
            i = i + 1;
        }
        proof {
            assert(self.entries@.take(i as int) =~= self.entries@);
        }
        out
    }

    /// A table holding the given pairs; where a path occurs more than once,
    /// its last pair wins.
    pub fn from_entries(pairs: Vec<(String, String)>) -> (r: HashTable)
        ensures
            r@ == map_of(pairs@),
    {
        let mut t = HashTable::new();
        let mut i: usize = 0;
        proof {
            assert(pairs@.take(0) =~= Seq::<(String, String)>::empty());
        }
        while i < pairs.len()
            invariant
                i <= pairs@.len(),
                t@ == map_of(pairs@.take(i as int)),
            decreases pairs@.len() - i,
        {
            let k = pairs[i].0.clone();
            let v = pairs[i].1.clone();
            proof {
                assert(pairs@.take(i + 1).drop_last() =~= pairs@.take(i as int));
            }
            t.insert(k, v);
            i = i + 1;
        }
        proof {
            assert(pairs@.take(i as int) =~= pairs@);
        }
        t
    }
}

/// The hash ledger: one table of full fingerprints and one of pseudo
/// fingerprints, which never share entries.
pub struct HashStore {
    pub regular_hashes: HashTable,
    pub pseudo_hashes: HashTable,
}

impl View for HashStore {
    type V = (Map<Seq<char>, Seq<char>>, Map<Seq<char>, Seq<char>>);

    open spec fn view(&self) -> Self::V {
        (self.regular_hashes@, self.pseudo_hashes@)
    }
}

/// The namespace of a ledger view that one fingerprint mode uses.
pub open spec fn namespace(
    l: (Map<Seq<char>, Seq<char>>, Map<Seq<char>, Seq<char>>),
    pseudo: bool,
) -> Map<Seq<char>, Seq<char>> {
    if pseudo {
        l.1
    } else {
        l.0
    }
}

/// A ledger view with `value` recorded for `key` in the namespace of the mode.
pub open spec fn record(
    l: (Map<Seq<char>, Seq<char>>, Map<Seq<char>, Seq<char>>),
    pseudo: bool,
    key: Seq<char>,
    value: Seq<char>,
) -> (Map<Seq<char>, Seq<char>>, Map<Seq<char>, Seq<char>>) {
    if pseudo {
        (l.0, l.1.insert(key, value))
    } else {
        (l.0.insert(key, value), l.1)
    }
}

impl Default for HashStore {
    fn default() -> (r: HashStore)
        ensures
            r@.0 == Map::<Seq<char>, Seq<char>>::empty(),
            r@.1 == Map::<Seq<char>, Seq<char>>::empty(),
    {
        HashStore::new()
    }
}

impl HashStore {
    /// An empty ledger.
    pub fn new() -> (r: HashStore)
        ensures
            r@.0 == Map::<Seq<char>, Seq<char>>::empty(),
            r@.1 == Map::<Seq<char>, Seq<char>>::empty(),
    {
        HashStore { regular_hashes: HashTable::new(), pseudo_hashes: HashTable::new() }
    }

    /// The fingerprint recorded for `key` in the namespace of the mode.
    pub fn get(&self, pseudo: bool, key: &String) -> (r: Option<&String>)
        ensures
            match r {
                Some(v) => namespace(self@, pseudo).contains_key(key@) && namespace(
                    self@,
                    pseudo,
                )[key@] == v@,
                None => !namespace(self@, pseudo).contains_key(key@),
            },
    {
        if pseudo {
            self.pseudo_hashes.get(key)
        } else {
            self.regular_hashes.get(key)
        }
    }

    /// Records `value` for `key` in the namespace of the mode; the other
    /// namespace is left as it was.
    pub fn set(&mut self, pseudo: bool, key: String, value: String)
        ensures
            final(self)@ == record(old(self)@, pseudo, key@, value@),
    {
        if pseudo {
            self.pseudo_hashes.insert(key, value);
        } else {
            self.regular_hashes.insert(key, value);
        }
    }
}

} // verus!
