use vstd::prelude::*;

verus! {

/// The key/value pairs of `entries`, keys taken by their text.
pub open spec fn pairs<V>(entries: Seq<(String, V)>) -> Seq<(Seq<char>, V)> {
    entries.map_values(|e: (String, V)| (e.0@, e.1))
}

/// The map that a sequence of pairs describes; a later pair wins over an
/// earlier one with the same key.
pub open spec fn map_of<V>(s: Seq<(Seq<char>, V)>) -> Map<Seq<char>, V>
    decreases s.len(),
{
    if s.len() == 0 {
        Map::empty()
    } else {
        map_of(s.drop_last()).insert(s.last().0, s.last().1)
    }
}

/// No key occurs twice in `s`.
pub open spec fn distinct_keys<V>(s: Seq<(Seq<char>, V)>) -> bool {
    forall|i: int, j: int| 0 <= i < j < s.len() ==> s[i].0 != s[j].0
}

proof fn lemma_map_of_dom<V>(s: Seq<(Seq<char>, V)>, k: Seq<char>)
    ensures
        map_of(s).dom().contains(k) <==> exists|i: int| 0 <= i < s.len() && s[i].0 == k,
    decreases s.len(),
{
    if s.len() > 0 {
        lemma_map_of_dom(s.drop_last(), k);
        if map_of(s).dom().contains(k) && k != s.last().0 {
            let i = choose|i: int| 0 <= i < s.drop_last().len() && s.drop_last()[i].0 == k;
            assert(s[i].0 == k);
        }
        if exists|i: int| 0 <= i < s.len() && s[i].0 == k {
            let i = choose|i: int| 0 <= i < s.len() && s[i].0 == k;
            if i < s.len() - 1 {
                assert(s.drop_last()[i].0 == k);
            }
        }
    }
}

proof fn lemma_map_of_at<V>(s: Seq<(Seq<char>, V)>, i: int)
    requires
        distinct_keys(s),
        0 <= i < s.len(),
    ensures
        map_of(s).dom().contains(s[i].0),
        map_of(s)[s[i].0] == s[i].1,
    decreases s.len(),
{
    if i < s.len() - 1 {
        lemma_map_of_at(s.drop_last(), i);
        assert(s.drop_last()[i] == s[i]);
    }
}

proof fn lemma_map_of_update<V>(s: Seq<(Seq<char>, V)>, i: int, v: V)
    requires
        distinct_keys(s),
        0 <= i < s.len(),
    ensures
        map_of(s.update(i, (s[i].0, v))) =~= map_of(s).insert(s[i].0, v),
    decreases s.len(),
{
    let t = s.update(i, (s[i].0, v));
    if i == s.len() - 1 {
        assert(t.drop_last() =~= s.drop_last());
        lemma_map_of_dom(s.drop_last(), s[i].0);
    } else {
        assert(t.drop_last() =~= s.drop_last().update(i, (s[i].0, v)));
        lemma_map_of_update(s.drop_last(), i, v);
    }
}

/// Changing every value of a sequence of pairs changes the map it
/// describes the same way.
pub proof fn lemma_map_of_map_values<V, W>(s: Seq<(Seq<char>, V)>, f: spec_fn(V) -> W)
    ensures
        map_of(s.map_values(|e: (Seq<char>, V)| (e.0, f(e.1)))) =~= map_of(s).map_values(f),
    decreases s.len(),
{
    if s.len() > 0 {
        let t = s.map_values(|e: (Seq<char>, V)| (e.0, f(e.1)));
        assert(t.drop_last() =~= s.drop_last().map_values(|e: (Seq<char>, V)| (e.0, f(e.1))));
        lemma_map_of_map_values(s.drop_last(), f);
    }
}

/// A small map from text keys to values that keeps its entries in the
/// order in which their keys first arrived. No key occurs twice.
#[derive(Debug, PartialEq, Eq)]
pub struct Dict<V> {
    entries: Vec<(String, V)>,
}

impl<V> Dict<V> {
    #[verifier::type_invariant]
    spec fn keys_unique(&self) -> bool {
        distinct_keys(pairs(self.entries@))
    }

    /// The entries, in order.
    pub closed spec fn seq(&self) -> Seq<(Seq<char>, V)> {
        pairs(self.entries@)
    }

    /// What the dictionary maps each key to.
    pub open spec fn map(&self) -> Map<Seq<char>, V> {
        map_of(self.seq())
    }

    /// An empty dictionary.
    pub fn new() -> (d: Self)
        ensures
            d.seq() == Seq::<(Seq<char>, V)>::empty(),
            d.map() == Map::<Seq<char>, V>::empty(),
    {
        let d = Dict { entries: Vec::new() };
        assert(d.seq() =~= Seq::<(Seq<char>, V)>::empty());
        d
    }

    /// The number of entries.
    pub fn len(&self) -> (n: usize)
        ensures
            n == self.seq().len(),
            distinct_keys(self.seq()),
    {
        proof {
            use_type_invariant(self);
        }
        self.entries.len()
    }

    /// The entry at position `i`.
    pub fn entry(&self, i: usize) -> (e: (&String, &V))
        requires
            i < self.seq().len(),
        ensures
            e.0@ == self.seq()[i as int].0,
            *e.1 == self.seq()[i as int].1,
    {
        let e = &self.entries[i];
        (&e.0, &e.1)
    }

    /// Position of the entry with key `key`, if any.
    fn position(&self, key: &str) -> (r: Option<usize>)
        ensures
            r is Some ==> r->0 < self.seq().len() && self.seq()[r->0 as int].0 == key@,
            r is None ==> forall|i: int| 0 <= i < self.seq().len() ==> self.seq()[i].0 != key@,
    {
        let k = key.to_owned();
        let n = self.entries.len();
        let mut i: usize = 0;
        while i < n
            invariant
                n == self.entries@.len(),
                k@ == key@,
                i <= n,
                forall|j: int| 0 <= j < i ==> self.seq()[j].0 != key@,
            decreases n - i,
        {
            if self.entries[i].0 == k {
                return Some(i);
            }
            i += 1;
        }
        None
    }

    /// The value stored under `key`.
    pub fn get(&self, key: &str) -> (r: Option<&V>)
        ensures
            r is Some <==> self.map().dom().contains(key@),
            r is Some ==> *r->0 == self.map()[key@],
    {
        proof {
            use_type_invariant(self);
            lemma_map_of_dom(self.seq(), key@);
        }
        match self.position(key) {
            Some(i) => {
                proof {
                    lemma_map_of_at(self.seq(), i as int);
                }
                Some(&self.entries[i].1)
            },
            None => None,
        }
    }

    /// Whether some entry has key `key`.
    pub fn contains_key(&self, key: &str) -> (b: bool)
        ensures
            b == self.map().dom().contains(key@),
    {
        self.get(key).is_some()
    }

    /// Stores `value` under `key`: an entry with that key gets the new value
    /// in its place, otherwise a new entry goes to the end.
    pub fn insert(&mut self, key: String, value: V)
        ensures
            final(self).map() == old(self).map().insert(key@, value),
            old(self).map().dom().contains(key@) ==> final(self).seq().len() == old(self).seq().len(),
            !old(self).map().dom().contains(key@) ==> final(self).seq() == old(self).seq().push((key@, value)),
    {
        proof {
            use_type_invariant(&*self);
            lemma_map_of_dom(self.seq(), key@);
        }
        let ghost s0 = self.seq();
        let mut entries: Vec<(String, V)> = Vec::new();
        std::mem::swap(&mut entries, &mut self.entries);
        assert(pairs(entries@) == s0);
        match self.position_in(&entries, key.as_str()) {
            Some(i) => {
                let ghost k = s0[i as int].0;
                assert(k == key@);
                entries.set(i, (key, value));
                proof {
                    lemma_map_of_update(s0, i as int, value);
                    assert(pairs(entries@) =~= s0.update(i as int, (k, value)));
                }
                self.entries = entries;
            },
            None => {
                entries.push((key, value));
                assert(pairs(entries@) =~= s0.push((key@, value)));
                assert(s0.push((key@, value)).drop_last() =~= s0);
                self.entries = entries;
            },
        }
    }

    fn position_in(&self, entries: &Vec<(String, V)>, key: &str) -> (r: Option<usize>)
        ensures
            r is Some ==> r->0 < entries@.len() && pairs(entries@)[r->0 as int].0 == key@,
            r is None ==> forall|i: int| 0 <= i < entries@.len() ==> pairs(entries@)[i].0 != key@,
    {
        let k = key.to_owned();
        let n = entries.len();
        let mut i: usize = 0;
        while i < n
            invariant
                n == entries@.len(),
                k@ == key@,
                i <= n,
                forall|j: int| 0 <= j < i ==> pairs(entries@)[j].0 != key@,
            decreases n - i,
        {
            if entries[i].0 == k {
                return Some(i);
            }
            i += 1;
        }
        None
    }
}

} // verus!
