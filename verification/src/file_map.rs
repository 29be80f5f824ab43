//! A map from file names to values that is walked in file-name order.
//!
//! The entries are kept in two parallel vectors, the names strictly
//! increasing. The view is the mathematical map; `names()` and `items()` give
//! the order in which the entries are walked.

use crate::text::{
    lemma_path_lt_asymmetric, lemma_path_lt_irreflexive, lemma_path_lt_total,
    lemma_path_lt_transitive, path_lt, str_equal, str_less,
};
use vstd::prelude::*;

verus! {

/// The names are strictly increasing in the order of file names.
pub open spec fn strictly_sorted(names: Seq<Seq<char>>) -> bool {
    forall|i: int, j: int| 0 <= i < j < names.len() ==> path_lt(#[trigger] names[i], #[trigger] names[j])
}

/// The names met in the first `i` steps of a walk over `names`.
pub open spec fn walked(names: Seq<Seq<char>>, i: int) -> Set<Seq<char>> {
    Set::new(|f: Seq<char>| exists|j: int| 0 <= j < i && names[j] == f)
}

/// One more step of a walk meets one more name.
pub proof fn lemma_walked_step(names: Seq<Seq<char>>, i: int)
    requires
        0 <= i < names.len(),
    ensures
        walked(names, i + 1) == walked(names, i).insert(names[i]),
{
    assert forall|f: Seq<char>| walked(names, i + 1).contains(f) <==> walked(names, i).insert(
        names[i],
    ).contains(f) by {
        if walked(names, i + 1).contains(f) {
            let j = choose|j: int| 0 <= j < i + 1 && names[j] == f;
            if j < i {
                assert(walked(names, i).contains(f));
            }
        }
        if walked(names, i).contains(f) {
            let j = choose|j: int| 0 <= j < i && names[j] == f;
            assert(0 <= j < i + 1 && names[j] == f);
        }
        if f == names[i] {
            assert(0 <= i < i + 1 && names[i] == f);
        }
    }
    assert(walked(names, i + 1) =~= walked(names, i).insert(names[i]));
}

/// The map that holds `items[i]` under `names[i]`.
pub open spec fn entries_map<V>(names: Seq<Seq<char>>, items: Seq<V>) -> Map<Seq<char>, V> {
    Map::new(
        |k: Seq<char>| names.contains(k),
        |k: Seq<char>| items[names.index_of(k)],
    )
}

/// Strictly sorted names are distinct.
pub proof fn lemma_sorted_distinct(names: Seq<Seq<char>>, i: int, j: int)
    requires
        strictly_sorted(names),
        0 <= i < names.len(),
        0 <= j < names.len(),
        names[i] == names[j],
    ensures
        i == j,
{
    if i < j {
        lemma_path_lt_irreflexive(names[i]);
    } else if j < i {
        lemma_path_lt_irreflexive(names[j]);
    }
}

/// The map of sorted names holds `items[i]` under `names[i]`.
pub proof fn lemma_entry_at<V>(names: Seq<Seq<char>>, items: Seq<V>, i: int)
    requires
        strictly_sorted(names),
        names.len() == items.len(),
        0 <= i < names.len(),
    ensures
        entries_map(names, items).contains_key(names[i]),
        entries_map(names, items)[names[i]] == items[i],
{
    assert(names.contains(names[i]));
    let j = names.index_of(names[i]);
    lemma_sorted_distinct(names, i, j);
}

proof fn lemma_insert_entry<V>(names: Seq<Seq<char>>, items: Seq<V>, p: int, k: Seq<char>, v: V)
    requires
        strictly_sorted(names),
        names.len() == items.len(),
        0 <= p <= names.len(),
        forall|i: int| 0 <= i < p ==> path_lt(#[trigger] names[i], k),
        forall|i: int| p <= i < names.len() ==> path_lt(k, #[trigger] names[i]),
    ensures
        strictly_sorted(names.insert(p, k)),
        entries_map(names.insert(p, k), items.insert(p, v)) == entries_map(names, items).insert(
            k,
            v,
        ),
{
    let names2 = names.insert(p, k);
    let items2 = items.insert(p, v);
    assert forall|i: int, j: int| 0 <= i < j < names2.len() implies path_lt(
        #[trigger] names2[i],
        #[trigger] names2[j],
    ) by {
        if i < p && j > p {
            lemma_path_lt_transitive(names[i], k, names[j - 1]);
        }
    }
    let m1 = entries_map(names2, items2);
    let m2 = entries_map(names, items).insert(k, v);
    assert forall|q: Seq<char>| m1.contains_key(q) <==> m2.contains_key(q) by {
        if names2.contains(q) {
            let i = names2.index_of(q);
            if i < p {
                assert(names[i] == q);
            } else if i > p {
                assert(names[i - 1] == q);
            }
        }
        if names.contains(q) {
            let i = names.index_of(q);
            if i < p {
                assert(names2[i] == q);
            } else {
                assert(names2[i + 1] == q);
            }
        }
        if q == k {
            assert(names2[p] == q);
        }
    }
    assert forall|q: Seq<char>| m1.contains_key(q) implies m1[q] == m2[q] by {
        let i = names2.index_of(q);
        lemma_entry_at(names2, items2, i);
        if i == p {
        } else if i < p {
            assert(names[i] == q);
            lemma_path_lt_asymmetric(names[i], k);
            lemma_entry_at(names, items, i);
        } else {
            assert(names[i - 1] == q);
            lemma_path_lt_asymmetric(k, names[i - 1]);
            lemma_entry_at(names, items, i - 1);
        }
    }
    assert(m1 =~= m2);
}

proof fn lemma_update_entry<V>(names: Seq<Seq<char>>, items: Seq<V>, p: int, v: V)
    requires
        strictly_sorted(names),
        names.len() == items.len(),
        0 <= p < names.len(),
    ensures
        entries_map(names, items.update(p, v)) == entries_map(names, items).insert(names[p], v),
{
    let items2 = items.update(p, v);
    let m1 = entries_map(names, items2);
    let m2 = entries_map(names, items).insert(names[p], v);
    assert forall|q: Seq<char>| m1.contains_key(q) <==> m2.contains_key(q) by {
        assert(names.contains(names[p]));
    }
    assert forall|q: Seq<char>| m1.contains_key(q) implies m1[q] == m2[q] by {
        let i = names.index_of(q);
        assert(names[i] == q);
        lemma_entry_at(names, items2, i);
        lemma_entry_at(names, items, i);
        if q == names[p] {
            lemma_sorted_distinct(names, i, p);
        }
    }
    assert(m1 =~= m2);
}

proof fn lemma_remove_entry<V>(names: Seq<Seq<char>>, items: Seq<V>, p: int)
    requires
        strictly_sorted(names),
        names.len() == items.len(),
        0 <= p < names.len(),
    ensures
        strictly_sorted(names.remove(p)),
        entries_map(names.remove(p), items.remove(p)) == entries_map(names, items).remove(names[p]),
{
    let names2 = names.remove(p);
    let items2 = items.remove(p);
    assert forall|i: int, j: int| 0 <= i < j < names2.len() implies path_lt(
        #[trigger] names2[i],
        #[trigger] names2[j],
    ) by {
        let a = if i < p { i } else { i + 1 };
        let b = if j < p { j } else { j + 1 };
        assert(path_lt(names[a], names[b]));
    }
    let m1 = entries_map(names2, items2);
    let m2 = entries_map(names, items).remove(names[p]);
    assert forall|q: Seq<char>| m1.contains_key(q) <==> m2.contains_key(q) by {
        if names2.contains(q) {
            let i = names2.index_of(q);
            let a = if i < p { i } else { i + 1 };
            assert(names2[i] == q);
            assert(names[a] == q);
            if q == names[p] {
                lemma_sorted_distinct(names, a, p);
            }
        }
        if names.contains(q) && q != names[p] {
            let i = names.index_of(q);
            if i < p {
                assert(names2[i] == q);
            } else {
                assert(names2[i - 1] == q);
            }
        }
    }
    assert forall|q: Seq<char>| m1.contains_key(q) implies m1[q] == m2[q] by {
        let i = names2.index_of(q);
        let a = if i < p { i } else { i + 1 };
        assert(names2[i] == q);
        assert(names[a] == q);
        lemma_entry_at(names2, items2, i);
        lemma_entry_at(names, items, a);
    }
    assert(m1 =~= m2);
}

/// Two strictly sorted sequences with the same names are the same sequence.
pub proof fn lemma_sorted_same_names(s: Seq<Seq<char>>, t: Seq<Seq<char>>)
    requires
        strictly_sorted(s),
        strictly_sorted(t),
        forall|x: Seq<char>| s.contains(x) <==> t.contains(x),
    ensures
        s == t,
    decreases s.len(),
{
    if s.len() == 0 {
        if t.len() > 0 {
            assert(t.contains(t[0]));
        }
        assert(s =~= t);
    } else {
        assert(s.contains(s[0]));
        let j = t.index_of(s[0]);
        assert(t[j] == s[0]);
        assert(t.contains(t[0]));
        let k = s.index_of(t[0]);
        assert(s[k] == t[0]);
        if j > 0 {
            assert(path_lt(t[0], t[j]));
            if k > 0 {
                assert(path_lt(s[0], s[k]));
                lemma_path_lt_asymmetric(t[0], s[0]);
            } else {
                lemma_path_lt_irreflexive(s[0]);
            }
        }
        assert(s[0] == t[0]);
        let s2 = s.drop_first();
        let t2 = t.drop_first();
        assert forall|a: int, b: int| 0 <= a < b < s2.len() implies path_lt(
            #[trigger] s2[a],
            #[trigger] s2[b],
        ) by {
            assert(path_lt(s[a + 1], s[b + 1]));
        }
        assert forall|a: int, b: int| 0 <= a < b < t2.len() implies path_lt(
            #[trigger] t2[a],
            #[trigger] t2[b],
        ) by {
            assert(path_lt(t[a + 1], t[b + 1]));
        }
        assert forall|x: Seq<char>| s2.contains(x) <==> t2.contains(x) by {
            if s2.contains(x) {
                let a = s2.index_of(x);
                assert(s[a + 1] == x);
                assert(path_lt(s[0], s[a + 1]));
                lemma_path_lt_asymmetric(s[0], x);
                assert(s.contains(x));
                let b = t.index_of(x);
                assert(t[b] == x);
                assert(t2[b - 1] == x);
            }
            if t2.contains(x) {
                let a = t2.index_of(x);
                assert(t[a + 1] == x);
                assert(path_lt(t[0], t[a + 1]));
                lemma_path_lt_asymmetric(t[0], x);
                assert(t.contains(x));
                let b = s.index_of(x);
                assert(s[b] == x);
                assert(s2[b - 1] == x);
            }
        }
        lemma_sorted_same_names(s2, t2);
        assert(s =~= seq![s[0]] + s2);
        assert(t =~= seq![t[0]] + t2);
    }
}

/// A finite map keyed by file name, walked in file-name order.
#[derive(Debug)]
pub struct FileMap<V> {
    keys: Vec<String>,
    vals: Vec<V>,
}

impl<V> FileMap<V> {
    /// The names of the entries, in the order in which they are walked.
    pub closed spec fn names(&self) -> Seq<Seq<char>> {
        Seq::new(self.keys.len() as nat, |i: int| self.keys[i]@)
    }

    /// The values of the entries, in the same order as `names()`.
    pub closed spec fn items(&self) -> Seq<V> {
        self.vals@
    }

    /// One value for each name, and the names strictly increasing.
    pub open spec fn wf(&self) -> bool {
        &&& self.names().len() == self.items().len()
        &&& strictly_sorted(self.names())
    }

    /// The map from each name to its value.
    pub open spec fn view(&self) -> Map<Seq<char>, V> {
        entries_map(self.names(), self.items())
    }

    /// The `i`-th entry in walking order is an entry of the map.
    pub proof fn lemma_walk(&self, i: int)
        requires
            self.wf(),
            0 <= i < self.names().len(),
        ensures
            self@.contains_key(self.names()[i]),
            self@[self.names()[i]] == self.items()[i],
    {
        lemma_entry_at(self.names(), self.items(), i);
    }

    /// The walk is fixed by the map: two well-formed maps with the same
    /// entries are walked in the same order, the order of the file names.
    pub proof fn lemma_walk_is_fixed(&self, other: &FileMap<V>)
        requires
            self.wf(),
            other.wf(),
            self@ == other@,
        ensures
            self.names() == other.names(),
            self.items() == other.items(),
    {
        assert forall|x: Seq<char>| self.names().contains(x) <==> other.names().contains(x) by {
            assert(self@.contains_key(x) == self.names().contains(x));
            assert(other@.contains_key(x) == other.names().contains(x));
        }
        lemma_sorted_same_names(self.names(), other.names());
        assert forall|i: int| 0 <= i < self.items().len() implies self.items()[i]
            == other.items()[i] by {
            self.lemma_walk(i);
            other.lemma_walk(i);
        }
        assert(self.items() =~= other.items());
    }

    /// Every key of the map is met when walking.
    pub proof fn lemma_key_is_walked(&self, k: Seq<char>)
        requires
            self@.contains_key(k),
        ensures
            exists|i: int| 0 <= i < self.names().len() && self.names()[i] == k,
    {
        let i = self.names().index_of(k);
        assert(self.names()[i] == k);
    }

    /// The empty map.
    pub fn new() -> (r: Self)
        ensures
            r.wf(),
            r@ == Map::<Seq<char>, V>::empty(),
            r.names() == Seq::<Seq<char>>::empty(),
    {
        let r = FileMap { keys: Vec::new(), vals: Vec::new() };
        assert(r.names() =~= Seq::<Seq<char>>::empty());
        assert(r@ =~= Map::<Seq<char>, V>::empty());
        r
    }

    /// The number of entries.
    pub fn len(&self) -> (n: usize)
        requires
            self.wf(),
        ensures
            n == self.names().len(),
    {
        self.keys.len()
    }

    /// Whether the map has no entry.
    pub fn is_empty(&self) -> (b: bool)
        requires
            self.wf(),
        ensures
            b == (self.names().len() == 0),
    {
        self.keys.len() == 0
    }

    /// The name of the `i`-th entry in walking order.
    pub fn name_at(&self, i: usize) -> (k: &String)
        requires
            self.wf(),
            i < self.names().len(),
        ensures
            k@ == self.names()[i as int],
            self@.contains_key(k@),
    {
        proof {
            self.lemma_walk(i as int);
        }
        &self.keys[i]
    }

    /// The value of the `i`-th entry in walking order.
    pub fn item_at(&self, i: usize) -> (v: &V)
        requires
            self.wf(),
            i < self.names().len(),
        ensures
            *v == self.items()[i as int],
            *v == self@[self.names()[i as int]],
    {
        proof {
            self.lemma_walk(i as int);
        }
        &self.vals[i]
    }

    /// The first position whose name is not before `k`.
    fn lower_bound(&self, k: &str) -> (p: usize)
        requires
            self.wf(),
        ensures
            p <= self.names().len(),
            forall|i: int| 0 <= i < p ==> path_lt(#[trigger] self.names()[i], k@),
            forall|i: int| p <= i < self.names().len() ==> !path_lt(#[trigger] self.names()[i], k@),
    {
        let mut p: usize = 0;
        while p < self.keys.len()
            invariant
                self.wf(),
                p <= self.keys.len(),
                self.keys.len() == self.names().len(),
                forall|i: int| 0 <= i < p ==> path_lt(#[trigger] self.names()[i], k@),
            decreases self.keys.len() - p,
        {
            if !str_less(self.keys[p].as_str(), k) {
                proof {
                    assert forall|i: int| p <= i < self.names().len() implies !path_lt(
                        #[trigger] self.names()[i],
                        k@,
                    ) by {
                        if i > p && path_lt(self.names()[i], k@) {
                            lemma_path_lt_transitive(self.names()[p as int], self.names()[i], k@);
                        }
                    }
                }
                return p;
            }
            p += 1;
        }
        p
    }

    /// Where `k` is held, if it is.
    pub fn position(&self, k: &str) -> (r: Option<usize>)
        requires
            self.wf(),
        ensures
            match r {
                Some(i) => i < self.names().len() && self.names()[i as int] == k@
                    && self@.contains_key(k@),
                None => !self@.contains_key(k@),
            },
    {
        let p = self.lower_bound(k);
        if p < self.keys.len() && str_equal(self.keys[p].as_str(), k) {
            proof {
                self.lemma_walk(p as int);
            }
            Some(p)
        } else {
            proof {
                if self@.contains_key(k@) {
                    let i = self.names().index_of(k@);
                    assert(self.names()[i] == k@);
                    lemma_path_lt_irreflexive(k@);
                    if i > p {
                        lemma_path_lt_total(self.names()[p as int], k@);
                        lemma_path_lt_asymmetric(self.names()[p as int], self.names()[i]);
                    }
                }
            }
            None
        }
    }

    /// Whether `k` is a key of the map.
    pub fn contains_key(&self, k: &str) -> (b: bool)
        requires
            self.wf(),
        ensures
            b == self@.contains_key(k@),
    {
        self.position(k).is_some()
    }

    /// The value held under `k`, if there is one.
    pub fn get(&self, k: &str) -> (r: Option<&V>)
        requires
            self.wf(),
        ensures
            match r {
                Some(v) => self@.contains_key(k@) && *v == self@[k@],
                None => !self@.contains_key(k@),
            },
    {
        match self.position(k) {
            Some(i) => {
                proof {
                    self.lemma_walk(i as int);
                }
                Some(&self.vals[i])
            },
            None => None,
        }
    }

    /// Puts `v` under `k`, replacing what was held there.
    pub fn insert(&mut self, k: String, v: V)
        requires
            old(self).wf(),
        ensures
            final(self).wf(),
            final(self)@ == old(self)@.insert(k@, v),
    {
        let p = self.lower_bound(k.as_str());
        if p < self.keys.len() && str_equal(self.keys[p].as_str(), k.as_str()) {
            proof {
                lemma_update_entry(self.names(), self.items(), p as int, v);
            }
            let ghost names = self.names();
            self.vals.set(p, v);
            assert(self.names() =~= names);
        } else {
            proof {
                assert forall|i: int| p <= i < self.names().len() implies path_lt(
                    k@,
                    #[trigger] self.names()[i],
                ) by {
                    lemma_path_lt_total(self.names()[i], k@);
                    if self.names()[i] == k@ {
                        if i > p {
                            lemma_path_lt_asymmetric(self.names()[p as int], self.names()[i]);
                            lemma_path_lt_total(self.names()[p as int], k@);
                        }
                    }
                }
                lemma_insert_entry(self.names(), self.items(), p as int, k@, v);
            }
            let ghost names = self.names();
            self.keys.insert(p, k);
            self.vals.insert(p, v);
            assert(self.names() =~= names.insert(p as int, k@));
        }
    }

    /// Takes out the entry under `k` and returns its value, if there is one.
    pub fn remove(&mut self, k: &str) -> (r: Option<V>)
        requires
            old(self).wf(),
        ensures
            final(self).wf(),
            final(self)@ == old(self)@.remove(k@),
            match r {
                Some(v) => old(self)@.contains_key(k@) && v == old(self)@[k@],
                None => !old(self)@.contains_key(k@),
            },
    {
        match self.position(k) {
            Some(p) => {
                proof {
                    self.lemma_walk(p as int);
                    lemma_remove_entry(self.names(), self.items(), p as int);
                }
                let ghost names = self.names();
                self.keys.remove(p);
                let v = self.vals.remove(p);
                assert(self.names() =~= names.remove(p as int));
                Some(v)
            },
            None => {
                assert(self@.remove(k@) =~= self@);
                None
            },
        }
    }

    /// The values, in walking order.
    pub fn into_values(self) -> (r: Vec<V>)
        requires
            self.wf(),
        ensures
            r@ == self.items(),
    {
        self.vals
    }
}

impl<V: DeepView> DeepView for FileMap<V> {
    type V = Map<Seq<char>, V::V>;

    /// The map from each name to the model of its value.
    open spec fn deep_view(&self) -> Map<Seq<char>, V::V> {
        Map::new(|k: Seq<char>| self@.contains_key(k), |k: Seq<char>| self@[k].deep_view())
    }
}

} // verus!
