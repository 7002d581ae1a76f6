//! A table of variable bindings: names to values, each name at most once.
use vstd::prelude::*;

verus! {

/// The bindings of `es`, a later entry winning over an earlier one with the
/// same name.
pub open spec fn entries_map<V>(es: Seq<(String, V)>) -> Map<Seq<char>, V>
    decreases es.len(),
{
    if es.len() == 0 {
        Map::empty()
    } else {
        entries_map(es.drop_last()).insert(es.last().0@, es.last().1)
    }
}

/// No name occurs twice in `es`.
pub open spec fn unique_names<V>(es: Seq<(String, V)>) -> bool {
    forall|i: int, j: int| 0 <= i < j < es.len() ==> es[i].0@ != es[j].0@
}

proof fn lemma_entries_map<V>(es: Seq<(String, V)>)
    requires
        unique_names(es),
    ensures
        forall|k: Seq<char>| #[trigger]
            entries_map(es).dom().contains(k) <==> exists|i: int| 0 <= i < es.len() && es[i].0@ == k,
        forall|i: int| 0 <= i < es.len() ==> #[trigger] entries_map(es)[es[i].0@] == es[i].1,
        entries_map(es).dom().finite(),
        entries_map(es).dom().len() == es.len(),
    decreases es.len(),
{
    if es.len() > 0 {
        let init = es.drop_last();
        lemma_entries_map(init);
        let m = entries_map(es);
        let last = es.last();
        assert forall|k: Seq<char>| #[trigger]
            m.dom().contains(k) <==> exists|i: int| 0 <= i < es.len() && es[i].0@ == k by {
            if m.dom().contains(k) && k != last.0@ {
                let i = choose|i: int| 0 <= i < init.len() && init[i].0@ == k;
                assert(es[i].0@ == k);
            }
            if exists|i: int| 0 <= i < es.len() && es[i].0@ == k {
                let i = choose|i: int| 0 <= i < es.len() && es[i].0@ == k;
                if i < es.len() - 1 {
                    assert(init[i].0@ == k);
                }
            }
        }
        assert forall|i: int| 0 <= i < es.len() implies #[trigger] m[es[i].0@] == es[i].1 by {
            if i < es.len() - 1 {
                assert(init[i] == es[i]);
                assert(es[i].0@ != last.0@);
            }
        }
        assert(!entries_map(init).dom().contains(last.0@)) by {
            if entries_map(init).dom().contains(last.0@) {
                let i = choose|i: int| 0 <= i < init.len() && init[i].0@ == last.0@;
                assert(es[i].0@ == es[es.len() - 1].0@);
            }
        }
    }
}

/// Variable bindings: each name bound to one value.
#[derive(Debug)]
pub struct Bindings<V> {
    entries: Vec<(String, V)>,
}

impl<V> View for Bindings<V> {
    type V = Map<Seq<char>, V>;

    closed spec fn view(&self) -> Map<Seq<char>, V> {
        entries_map(self.entries@)
    }
}

impl<V> Bindings<V> {
    /// The table's invariant: no name occurs twice.
    pub closed spec fn wf(&self) -> bool {
        unique_names(self.entries@)
    }

    /// A table without bindings.
    pub fn new() -> (b: Bindings<V>)
        ensures
            b.wf(),
            b@ == Map::<Seq<char>, V>::empty(),
    {
        Bindings { entries: Vec::new() }
    }

    proof fn lemma_view(&self)
        requires
            self.wf(),
        ensures
            forall|k: Seq<char>| #[trigger]
                self@.dom().contains(k) <==> exists|i: int|
                    0 <= i < self.entries@.len() && self.entries@[i].0@ == k,
            forall|i: int|
                0 <= i < self.entries@.len() ==> #[trigger] self@[self.entries@[i].0@]
                    == self.entries@[i].1,
            self@.dom().finite(),
            self@.dom().len() == self.entries@.len(),
    {
        lemma_entries_map(self.entries@);
    }

    /// The index of the entry for `name`, if any.
    fn position(&self, name: &String) -> (r: Option<usize>)
        requires
            self.wf(),
        ensures
            match r {
                Some(i) => i < self.entries@.len() && self.entries@[i as int].0@ == name@,
                None => !self@.dom().contains(name@),
            },
    {
        proof {
            self.lemma_view();
        }
        let mut i: usize = 0;
        while i < self.entries.len()
            invariant
                i <= self.entries@.len(),
                forall|j: int| 0 <= j < i ==> self.entries@[j].0@ != name@,
            decreases self.entries@.len() - i,
        {
            if self.entries[i].0 == *name {
                return Some(i);
            }
            i = i + 1;
        }
        None
    }

    /// The value bound to `name`, if any.
    pub fn get(&self, name: &String) -> (r: Option<&V>)
        requires
            self.wf(),
        ensures
            match r {
                Some(v) => self@.dom().contains(name@) && *v == self@[name@],
                None => !self@.dom().contains(name@),
            },
    {
        proof {
            self.lemma_view();
        }
        match self.position(name) {
            Some(i) => Some(&self.entries[i].1),
            None => None,
        }
    }

    /// Whether `name` is bound.
    pub fn contains(&self, name: &String) -> (b: bool)
        requires
            self.wf(),
        ensures
            b == self@.dom().contains(name@),
    {
        proof {
            self.lemma_view();
        }
        self.position(name).is_some()
    }

    /// Binds `name` to `value`, replacing any earlier binding of `name`.
    pub fn insert(&mut self, name: String, value: V)
        requires
            old(self).wf(),
        ensures
            final(self).wf(),
            final(self)@ == old(self)@.insert(name@, value),
    {
        proof {
            self.lemma_view();
        }
        let ghost key = name@;
        match self.position(&name) {
            Some(i) => {
                let ghost before = self.entries@;
                self.entries.set(i, (name, value));
                proof {
                    let after = self.entries@;
                    assert(unique_names(after)) by {
                        assert forall|a: int, b: int| 0 <= a < b < after.len() implies after[a].0@
                            != after[b].0@ by {
                            assert(after[a].0@ == before[a].0@);
                            assert(after[b].0@ == before[b].0@);
                        }
                    }
                    lemma_entries_map(after);
                    assert(entries_map(after) =~= entries_map(before).insert(key, value)) by {
                        assert forall|k: Seq<char>| #[trigger]
                            entries_map(after).dom().contains(k) <==> entries_map(before).insert(
                                key,
                                value,
                            ).dom().contains(k) by {
                            if entries_map(after).dom().contains(k) {
                                let j = choose|j: int| 0 <= j < after.len() && after[j].0@ == k;
                                assert(before[j].0@ == k);
                            }
                            if entries_map(before).dom().contains(k) {
                                let j = choose|j: int| 0 <= j < before.len() && before[j].0@ == k;
                                assert(after[j].0@ == k);
                            }
                        }
                        assert forall|k: Seq<char>| #[trigger]
                            entries_map(after).dom().contains(k) implies entries_map(after)[k]
                            == entries_map(before).insert(key, value)[k] by {
                            let j = choose|j: int| 0 <= j < after.len() && after[j].0@ == k;
                            if j != i {
                                assert(before[j] == after[j]);
                            }
                        }
                    }
                }
            },
            None => {
                let ghost before = self.entries@;
                self.entries.push((name, value));
                proof {
                    let after = self.entries@;
                    assert(after.drop_last() =~= before);
                    assert forall|a: int, b: int| 0 <= a < b < after.len() implies after[a].0@
                        != after[b].0@ by {
                        if b == after.len() - 1 {
                            assert(entries_map(before).dom().contains(before[a].0@));
                        } else {
                            assert(after[a] == before[a]);
                            assert(after[b] == before[b]);
                        }
                    }
                }
            },
        }
    }

    /// The bound names, each once.
    pub fn names(&self) -> (r: Vec<String>)
        requires
            self.wf(),
        ensures
            r@.len() == self@.dom().len(),
            forall|i: int| 0 <= i < r@.len() ==> self@.dom().contains(#[trigger] r@[i]@),
            forall|k: Seq<char>| #[trigger]
                self@.dom().contains(k) ==> exists|i: int| 0 <= i < r@.len() && r@[i]@ == k,
            forall|i: int, j: int| 0 <= i < j < r@.len() ==> r@[i]@ != r@[j]@,
    {
        proof {
            self.lemma_view();
        }
        let mut r: Vec<String> = Vec::new();
        let mut i: usize = 0;
        while i < self.entries.len()
            invariant
                i <= self.entries@.len(),
                r@.len() == i,
                forall|j: int| 0 <= j < i ==> #[trigger] r@[j]@ == self.entries@[j].0@,
            decreases self.entries@.len() - i,
        {
            r.push(self.entries[i].0.clone());
            i = i + 1;
        }
        proof {
            assert forall|k: Seq<char>| #[trigger]
                self@.dom().contains(k) implies exists|i: int| 0 <= i < r@.len() && r@[i]@ == k by {
                let j = choose|j: int| 0 <= j < self.entries@.len() && self.entries@[j].0@ == k;
                assert(r@[j]@ == k);
            }
            assert forall|i: int| 0 <= i < r@.len() implies self@.dom().contains(#[trigger] r@[i]@) by {
                assert(r@[i]@ == self.entries@[i].0@);
            }
            assert forall|a: int, b: int| 0 <= a < b < r@.len() implies r@[a]@ != r@[b]@ by {
                assert(r@[a]@ == self.entries@[a].0@);
                assert(r@[b]@ == self.entries@[b].0@);
            }
        }
        r
    }
}

/// `b` holds the names of `a`, each bound to a clone of its value in `a`.
pub open spec fn cloned_bindings<V: Clone>(a: Map<Seq<char>, V>, b: Map<Seq<char>, V>) -> bool {
    &&& b.dom() == a.dom()
    &&& forall|k: Seq<char>| #[trigger] a.dom().contains(k) ==> cloned(a[k], b[k])
}

impl<V: Clone> Clone for Bindings<V> {
    /// A table with the same names, each bound to a clone of its value.
    fn clone(&self) -> (r: Self)
        ensures
            self.wf() ==> r.wf(),
            self.wf() ==> cloned_bindings(self@, r@),
    {
        let mut entries: Vec<(String, V)> = Vec::new();
        let mut i: usize = 0;
        while i < self.entries.len()
            invariant
                i <= self.entries@.len(),
                entries@.len() == i,
                forall|j: int|
                    0 <= j < i ==> #[trigger] entries@[j].0@ == self.entries@[j].0@ && cloned(
                        self.entries@[j].1,
                        entries@[j].1,
                    ),
            decreases self.entries@.len() - i,
        {
            let name = self.entries[i].0.clone();
            let value = self.entries[i].1.clone();
            let ghost before = entries@;
            entries.push((name, value));
            assert forall|j: int| 0 <= j <= i implies #[trigger] entries@[j].0@ == self.entries@[j].0@
                && cloned(self.entries@[j].1, entries@[j].1) by {
                if j < i {
                    assert(entries@[j] == before[j]);
                }
            }
            i = i + 1;
        }
        let r = Bindings { entries };
        proof {
            if self.wf() {
                assert(unique_names(r.entries@)) by {
                    assert forall|a: int, b: int| 0 <= a < b < r.entries@.len() implies r.entries@[a].0@
                        != r.entries@[b].0@ by {
                        assert(r.entries@[a].0@ == self.entries@[a].0@);
                        assert(r.entries@[b].0@ == self.entries@[b].0@);
                    }
                }
                self.lemma_view();
                r.lemma_view();
                assert forall|k: Seq<char>| #[trigger] r@.dom().contains(k) <==> self@.dom().contains(k) by {
                    if r@.dom().contains(k) {
                        let j = choose|j: int| 0 <= j < r.entries@.len() && r.entries@[j].0@ == k;
                        assert(self.entries@[j].0@ == k);
                    }
                    if self@.dom().contains(k) {
                        let j = choose|j: int| 0 <= j < self.entries@.len() && self.entries@[j].0@ == k;
                        assert(r.entries@[j].0@ == k);
                    }
                }
                assert(r@.dom() =~= self@.dom());
                assert forall|k: Seq<char>| #[trigger] self@.dom().contains(k) implies cloned(self@[k], r@[k]) by {
                    let j = choose|j: int| 0 <= j < self.entries@.len() && self.entries@[j].0@ == k;
                    assert(r.entries@[j].0@ == k);
                    assert(self@[self.entries@[j].0@] == self.entries@[j].1);
                    assert(r@[r.entries@[j].0@] == r.entries@[j].1);
                }
            }
        }
        r
    }
}

} // verus!
