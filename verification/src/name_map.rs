use vstd::prelude::*;

verus! {

/// Whether no name occurs twice among the entries.
pub open spec fn names_distinct<V>(es: Seq<(String, V)>) -> bool {
    forall|i: int, j: int|
        0 <= i < es.len() && 0 <= j < es.len() && i != j ==> (#[trigger] es[i]).0@ != (#[trigger] es[j]).0@
}

/// The map that a sequence of named entries stands for.
pub open spec fn entries_map<V>(es: Seq<(String, V)>) -> Map<Seq<char>, V> {
    Map::new(
        |k: Seq<char>| exists|i: int| 0 <= i < es.len() && es[i].0@ == k,
        |k: Seq<char>| es[choose|i: int| 0 <= i < es.len() && es[i].0@ == k].1,
    )
}

proof fn lemma_entries_map_index<V>(es: Seq<(String, V)>, i: int)
    requires names_distinct(es), 0 <= i < es.len(),
    ensures
        entries_map(es).dom().contains(es[i].0@),
        entries_map(es)[es[i].0@] == es[i].1,
{
    let k = choose|j: int| 0 <= j < es.len() && es[j].0@ == es[i].0@;
    assert(k == i);
}

proof fn lemma_entries_map_update<V>(es: Seq<(String, V)>, i: int, k: String, v: V)
    requires names_distinct(es), 0 <= i < es.len(), k@ == es[i].0@,
    ensures
        names_distinct(es.update(i, (k, v))),
        entries_map(es.update(i, (k, v))) == entries_map(es).insert(es[i].0@, v),
        es.update(i, (k, v)).map_values(|e: (String, V)| e.0@) == es.map_values(|e: (String, V)| e.0@),
{
    assert(es.update(i, (k, v)).map_values(|e: (String, V)| e.0@) =~= es.map_values(|e: (String, V)| e.0@));
    let es2 = es.update(i, (k, v));
    assert forall|a: int, b: int|
        0 <= a < es2.len() && 0 <= b < es2.len() && a != b implies (#[trigger] es2[a]).0@ != (#[trigger] es2[b]).0@ by {
        assert(es2[a].0@ == es[a].0@);
        assert(es2[b].0@ == es[b].0@);
    }
    lemma_entries_map_index(es2, i);
    assert forall|k: Seq<char>| #[trigger] entries_map(es2).dom().contains(k) <==> entries_map(es).insert(es[i].0@, v).dom().contains(k) by {
        if entries_map(es).dom().contains(k) {
            let j = choose|j: int| 0 <= j < es.len() && es[j].0@ == k;
            assert(es2[j].0@ == k);
        }
        if entries_map(es2).dom().contains(k) {
            let j = choose|j: int| 0 <= j < es2.len() && es2[j].0@ == k;
            assert(es[j].0@ == k);
        }
    }
    assert forall|k: Seq<char>| entries_map(es2).dom().contains(k) implies #[trigger] entries_map(es2)[k] == entries_map(es).insert(es[i].0@, v)[k] by {
        let j = choose|j: int| 0 <= j < es2.len() && es2[j].0@ == k;
        lemma_entries_map_index(es2, j);
        if j != i {
            lemma_entries_map_index(es, j);
        }
    }
    assert(entries_map(es2) =~= entries_map(es).insert(es[i].0@, v));
}

proof fn lemma_entries_map_push<V>(es: Seq<(String, V)>, k: String, v: V)
    requires
        names_distinct(es),
        forall|i: int| 0 <= i < es.len() ==> es[i].0@ != k@,
    ensures
        names_distinct(es.push((k, v))),
        entries_map(es.push((k, v))) == entries_map(es).insert(k@, v),
{
    let es2 = es.push((k, v));
    assert forall|a: int, b: int|
        0 <= a < es2.len() && 0 <= b < es2.len() && a != b implies (#[trigger] es2[a]).0@ != (#[trigger] es2[b]).0@ by {
    }
    assert forall|key: Seq<char>| #[trigger] entries_map(es2).dom().contains(key) <==> entries_map(es).insert(k@, v).dom().contains(key) by {
        if entries_map(es).dom().contains(key) {
            let j = choose|j: int| 0 <= j < es.len() && es[j].0@ == key;
            assert(es2[j].0@ == key);
        }
        if key == k@ {
            assert(es2[es.len() as int].0@ == key);
        }
        if entries_map(es2).dom().contains(key) {
            let j = choose|j: int| 0 <= j < es2.len() && es2[j].0@ == key;
            if j < es.len() {
                assert(es[j].0@ == key);
            }
        }
    }
    assert forall|key: Seq<char>| entries_map(es2).dom().contains(key) implies #[trigger] entries_map(es2)[key] == entries_map(es).insert(k@, v)[key] by {
        let j = choose|j: int| 0 <= j < es2.len() && es2[j].0@ == key;
        lemma_entries_map_index(es2, j);
        if j < es.len() {
            lemma_entries_map_index(es, j);
        }
    }
    assert(entries_map(es2) =~= entries_map(es).insert(k@, v));
}

proof fn lemma_entries_map_remove<V>(es: Seq<(String, V)>, i: int)
    requires names_distinct(es), 0 <= i < es.len(),
    ensures
        names_distinct(es.remove(i)),
        entries_map(es.remove(i)) == entries_map(es).remove(es[i].0@),
{
    let es2 = es.remove(i);
    assert forall|a: int, b: int|
        0 <= a < es2.len() && 0 <= b < es2.len() && a != b implies (#[trigger] es2[a]).0@ != (#[trigger] es2[b]).0@ by {
        let a1 = if a < i { a } else { a + 1 };
        let b1 = if b < i { b } else { b + 1 };
        assert(es2[a] == es[a1]);
        assert(es2[b] == es[b1]);
    }
    assert forall|key: Seq<char>| #[trigger] entries_map(es2).dom().contains(key) <==> entries_map(es).remove(es[i].0@).dom().contains(key) by {
        if entries_map(es2).dom().contains(key) {
            let j = choose|j: int| 0 <= j < es2.len() && es2[j].0@ == key;
            let j1 = if j < i { j } else { j + 1 };
            assert(es2[j] == es[j1]);
            assert(es[j1].0@ == key);
        }
        if entries_map(es).remove(es[i].0@).dom().contains(key) {
            let j = choose|j: int| 0 <= j < es.len() && es[j].0@ == key;
            assert(j != i);
            let j2 = if j < i { j } else { j - 1 };
            assert(es2[j2] == es[j]);
        }
    }
    assert forall|key: Seq<char>| entries_map(es2).dom().contains(key) implies #[trigger] entries_map(es2)[key] == entries_map(es).remove(es[i].0@)[key] by {
        let j = choose|j: int| 0 <= j < es2.len() && es2[j].0@ == key;
        let j1 = if j < i { j } else { j + 1 };
        assert(es2[j] == es[j1]);
        lemma_entries_map_index(es2, j);
        lemma_entries_map_index(es, j1);
    }
    assert(entries_map(es2) =~= entries_map(es).remove(es[i].0@));
}

/// A map from names to values that keeps its entries in insertion order.
pub struct NameMap<V> {
    entries: Vec<(String, V)>,
}

impl<V> NameMap<V> {
    pub closed spec fn wf(self) -> bool {
        names_distinct(self.entries@)
    }

    /// The names in insertion order.
    pub closed spec fn names(self) -> Seq<Seq<char>> {
        self.entries@.map_values(|e: (String, V)| e.0@)
    }

    pub closed spec fn view(self) -> Map<Seq<char>, V> {
        entries_map(self.entries@)
    }

    pub fn new() -> (r: Self)
        ensures r.wf(), r.view() == Map::<Seq<char>, V>::empty(), r.names() == Seq::<Seq<char>>::empty(),
    {
        let r = NameMap { entries: Vec::new() };
        assert(r.view() =~= Map::<Seq<char>, V>::empty());
        assert(r.names() =~= Seq::<Seq<char>>::empty());
        r
    }

    fn find(&self, name: &str) -> (r: Option<usize>)
        ensures
            match r {
                Some(i) => i < self.entries@.len() && self.entries@[i as int].0@ == name@,
                None => forall|i: int| 0 <= i < self.entries@.len() ==> self.entries@[i].0@ != name@,
            },
    {
        let key = name.to_string();
        let mut i: usize = 0;
        while i < self.entries.len()
            invariant
                i <= self.entries@.len(),
                key@ == name@,
                forall|j: int| 0 <= j < i ==> self.entries@[j].0@ != name@,
            decreases self.entries@.len() - i,
        {
            if self.entries[i].0 == key {
                return Some(i);
            }
            i = i + 1;
        }
        None
    }

    pub fn get_mut(&mut self, name: &str) -> (r: Option<&mut V>)
        requires old(self).wf(),
        ensures
            final(self).wf(),
            final(self).names() == old(self).names(),
            old(self).view().dom().contains(name@) == r is Some,
            r matches Some(v) ==> *v == old(self).view()[name@]
                && final(self).view() == old(self).view().insert(name@, *final(v)),
            r is None ==> *final(self) == *old(self),
    {
        match self.find(name) {
            Some(i) => {
                proof { lemma_entries_map_index(self.entries@, i as int); }
                let ghost es = self.entries@;
                let r = &mut self.entries[i].1;
                proof { lemma_entries_map_update(es, i as int, es[i as int].0, *final(r)); }
                Some(r)
            },
            None => None,
        }
    }

    /// Whether the map has no entry.
    pub fn is_empty(&self) -> (r: bool)
        requires self.wf(),
        ensures r == (self.view().dom() == Set::<Seq<char>>::empty()),
    {
        if self.entries.len() == 0 {
            assert(self.view().dom() =~= Set::<Seq<char>>::empty());
            true
        } else {
            assert(self.view().dom().contains(self.entries@[0].0@));
            false
        }
    }

    /// Whether an entry is named `name`.
    pub fn contains(&self, name: &str) -> (r: bool)
        requires self.wf(),
        ensures r == self.view().dom().contains(name@),
    {
        match self.find(name) {
            Some(i) => {
                proof { lemma_entries_map_index(self.entries@, i as int); }
                true
            },
            None => false,
        }
    }

    /// The value named `name`, if any.
    pub fn get(&self, name: &str) -> (r: Option<&V>)
        requires self.wf(),
        ensures
            r is Some == self.view().dom().contains(name@),
            r matches Some(v) ==> *v == self.view()[name@],
    {
        match self.find(name) {
            Some(i) => {
                proof { lemma_entries_map_index(self.entries@, i as int); }
                Some(&self.entries[i].1)
            },
            None => None,
        }
    }

    /// Sets the value named `name`; an entry of that name keeps its place, a new one goes last.
    pub fn insert(&mut self, name: &str, value: V)
        requires old(self).wf(),
        ensures
            final(self).wf(),
            final(self).view() == old(self).view().insert(name@, value),
            old(self).view().dom().contains(name@) ==> final(self).names() == old(self).names(),
            !old(self).view().dom().contains(name@) ==> final(self).names() == old(self).names().push(name@),
    {
        match self.find(name) {
            Some(i) => {
                proof { lemma_entries_map_index(self.entries@, i as int); }
                let ghost es = self.entries@;
                let key = name.to_string();
                self.entries.set(i, (key, value));
                proof {
                    lemma_entries_map_update(es, i as int, key, value);
                    assert(self.names() =~= old(self).names());
                }
            },
            None => {
                let ghost es = self.entries@;
                let key = name.to_string();
                self.entries.push((key, value));
                proof {
                    lemma_entries_map_push(es, key, value);
                    assert(self.names() =~= old(self).names().push(name@));
                }
            },
        }
    }

    /// Takes out the value named `name`, if any; the other entries keep their order.
    pub fn remove(&mut self, name: &str) -> (r: Option<V>)
        requires old(self).wf(),
        ensures
            final(self).wf(),
            r is Some == old(self).view().dom().contains(name@),
            r matches Some(v) ==> v == old(self).view()[name@],
            final(self).view() == old(self).view().remove(name@),
    {
        match self.find(name) {
            Some(i) => {
                proof { lemma_entries_map_index(self.entries@, i as int); }
                let ghost es = self.entries@;
                let e = self.entries.remove(i);
                proof { lemma_entries_map_remove(es, i as int); }
                Some(e.1)
            },
            None => {
                proof {
                    assert(self.view() =~= self.view().remove(name@));
                }
                None
            },
        }
    }

    /// The names of the entries, in insertion order.
    pub fn names_vec(&self) -> (r: Vec<String>)
        requires self.wf(),
        ensures
            r@.map_values(|s: String| s@) == self.names(),
            self.names().to_set() == self.view().dom(),
            self.names().no_duplicates(),
    {
        let mut r: Vec<String> = Vec::new();
        let mut i: usize = 0;
        while i < self.entries.len()
            invariant
                i <= self.entries@.len(),
                r@.len() == i,
                forall|j: int| 0 <= j < i ==> r@[j]@ == #[trigger] self.entries@[j].0@,
            decreases self.entries@.len() - i,
        {
            r.push(self.entries[i].0.clone());
            i = i + 1;
        }
        proof {
            assert(r@.map_values(|s: String| s@) =~= self.names());
            assert forall|k: Seq<char>| #[trigger] self.names().to_set().contains(k) <==> self.view().dom().contains(k) by {
                if self.view().dom().contains(k) {
                    let j = choose|j: int| 0 <= j < self.entries@.len() && self.entries@[j].0@ == k;
                    assert(self.names()[j] == k);
                }
                if self.names().contains(k) {
                    let j = choose|j: int| 0 <= j < self.names().len() && self.names()[j] == k;
                    assert(self.entries@[j].0@ == k);
                }
            }
            assert(self.names().to_set() =~= self.view().dom());
            assert forall|a: int, b: int| 0 <= a < self.names().len() && 0 <= b < self.names().len() && a != b
                implies self.names()[a] != self.names()[b] by {
                assert(self.names()[a] == self.entries@[a].0@);
                assert(self.names()[b] == self.entries@[b].0@);
            }
        }
        r
    }

    /// The values in insertion order, for iteration by callers of this crate.
    pub closed spec fn values(self) -> Seq<V> {
        self.entries@.map_values(|e: (String, V)| e.1)
    }
}

} // verus!
