//! A map from texts to values that keeps its entries in order of arrival.

use vstd::prelude::*;

use crate::text;

verus! {

/// The map that a list of entries stands for; a later entry outweighs an earlier
/// one under the same key.
pub open spec fn map_of<V>(l: Seq<(Seq<char>, V)>) -> Map<Seq<char>, V>
    decreases l.len(),
{
    if l.len() == 0 {
        Map::empty()
    } else {
        map_of(l.drop_last()).insert(l.last().0, l.last().1)
    }
}

/// Whether no key occurs twice.
pub open spec fn distinct<V>(l: Seq<(Seq<char>, V)>) -> bool {
    forall|i: int, j: int| 0 <= i < j < l.len() ==> (#[trigger] l[i]).0 != (#[trigger] l[j]).0
}

/// Whether `k` is the key of an entry.
pub open spec fn listed<V>(l: Seq<(Seq<char>, V)>, k: Seq<char>) -> bool {
    exists|i: int| 0 <= i < l.len() && (#[trigger] l[i]).0 == k
}

/// The map holds exactly the keys that are listed, and finitely many.
pub proof fn lemma_map_keys<V>(l: Seq<(Seq<char>, V)>)
    ensures
        forall|k: Seq<char>| #[trigger] map_of(l).contains_key(k) <==> listed(l, k),
        map_of(l).dom().finite(),
    decreases l.len(),
{
    if l.len() > 0 {
        lemma_map_keys(l.drop_last());
        assert forall|k: Seq<char>| #[trigger] map_of(l).contains_key(k) <==> listed(l, k) by {
            if map_of(l).contains_key(k) {
                if k == l.last().0 {
                    assert(l[l.len() - 1].0 == k);
                } else {
                    assert(map_of(l.drop_last()).contains_key(k));
                    let i = choose|i: int|
                        0 <= i < l.drop_last().len() && (#[trigger] l.drop_last()[i]).0 == k;
                    assert(l[i].0 == k);
                }
            }
            if listed(l, k) {
                let i = choose|i: int| 0 <= i < l.len() && (#[trigger] l[i]).0 == k;
                if i < l.len() - 1 {
                    assert(l.drop_last()[i].0 == k);
                }
            }
        }
    }
}

/// Where keys are distinct, the map gives back each entry's value.
pub proof fn lemma_map_values<V>(l: Seq<(Seq<char>, V)>)
    requires
        distinct(l),
    ensures
        forall|i: int|
            0 <= i < l.len() ==> map_of(l).contains_key((#[trigger] l[i]).0) && map_of(l)[l[i].0]
                == l[i].1,
        map_of(l).dom().finite(),
        map_of(l).len() == l.len(),
    decreases l.len(),
{
    if l.len() > 0 {
        let d = l.drop_last();
        assert forall|i: int, j: int| 0 <= i < j < d.len() implies (#[trigger] d[i]).0 != (
        #[trigger] d[j]).0 by {
            assert(l[i].0 != l[j].0);
        }
        lemma_map_values(d);
        lemma_map_keys(d);
        let last = l.last();
        assert(!map_of(d).contains_key(last.0)) by {
            if map_of(d).contains_key(last.0) {
                let i = choose|i: int| 0 <= i < d.len() && (#[trigger] d[i]).0 == last.0;
                assert(l[i].0 == l[l.len() - 1].0);
            }
        }
        assert forall|i: int| 0 <= i < l.len() implies map_of(l).contains_key((#[trigger] l[i]).0)
            && map_of(l)[l[i].0] == l[i].1 by {
            if i < d.len() {
                assert(d[i] == l[i]);
                assert(map_of(d).contains_key(d[i].0));
            }
        }
    }
}

/// Whether `l` lists exactly the values of `m`, each once, where `id` gives the key that
/// a value is kept under.
pub open spec fn lists_all<T>(l: Seq<T>, id: spec_fn(T) -> Seq<char>, m: Map<Seq<char>, T>) -> bool {
    &&& forall|i: int|
        0 <= i < l.len() ==> m.contains_key(id(#[trigger] l[i])) && m[id(l[i])] == l[i]
    &&& forall|k: Seq<char>| #[trigger]
        m.contains_key(k) ==> exists|i: int| 0 <= i < l.len() && #[trigger] l[i] == m[k]
    &&& forall|i: int, j: int|
        0 <= i < j < l.len() ==> id(#[trigger] l[i]) != id(#[trigger] l[j])
}

/// The values of distinct entries list all that the entries' map holds.
pub proof fn lemma_entries_list_all<T>(
    entries: Seq<(Seq<char>, T)>,
    values: Seq<T>,
    id: spec_fn(T) -> Seq<char>,
)
    requires
        distinct(entries),
        forall|k: Seq<char>| #[trigger]
            map_of(entries).contains_key(k) ==> id(map_of(entries)[k]) == k,
        values.len() == entries.len(),
        forall|i: int| 0 <= i < entries.len() ==> #[trigger] values[i] == entries[i].1,
    ensures
        lists_all(values, id, map_of(entries)),
{
    let m = map_of(entries);
    lemma_map_keys(entries);
    lemma_map_values(entries);
    assert forall|i: int| 0 <= i < values.len() implies id(#[trigger] values[i])
        == entries[i].0 by {
        assert(m.contains_key(entries[i].0));
    }
    assert forall|i: int| 0 <= i < values.len() implies m.contains_key(id(#[trigger] values[i]))
        && m[id(values[i])] == values[i] by {
        assert(m.contains_key(entries[i].0));
    }
    assert forall|k: Seq<char>| #[trigger] m.contains_key(k) implies exists|i: int|
        0 <= i < values.len() && #[trigger] values[i] == m[k] by {
        let i = choose|i: int| 0 <= i < entries.len() && (#[trigger] entries[i]).0 == k;
        assert(values[i] == m[k]);
    }
    assert forall|i: int, j: int| 0 <= i < j < values.len() implies id(#[trigger] values[i]) != id(
        #[trigger] values[j],
    ) by {
        assert(entries[i].0 != entries[j].0);
    }
}

/// The keys of the entries whose values `p` holds of, in order.
pub open spec fn keys_where<V>(l: Seq<(Seq<char>, V)>, p: spec_fn(V) -> bool) -> Seq<Seq<char>>
    decreases l.len(),
{
    if l.len() == 0 {
        Seq::empty()
    } else if p(l.last().1) {
        keys_where(l.drop_last(), p).push(l.last().0)
    } else {
        keys_where(l.drop_last(), p)
    }
}

/// Whether `keys` lists the keys of `m` whose values `p` holds of, each once.
pub open spec fn selects<V>(keys: Seq<Seq<char>>, m: Map<Seq<char>, V>, p: spec_fn(V) -> bool) -> bool {
    &&& forall|i: int| 0 <= i < keys.len() ==> m.contains_key(#[trigger] keys[i]) && p(m[keys[i]])
    &&& forall|k: Seq<char>| #[trigger]
        m.contains_key(k) && p(m[k]) ==> exists|i: int| 0 <= i < keys.len() && #[trigger] keys[i] == k
    &&& forall|i: int, j: int| 0 <= i < j < keys.len() ==> #[trigger] keys[i] != #[trigger] keys[j]
}

/// Whether `k` is the key of an entry whose value `p` holds of.
pub open spec fn has_where<V>(l: Seq<(Seq<char>, V)>, p: spec_fn(V) -> bool, k: Seq<char>) -> bool {
    exists|j: int| 0 <= j < l.len() && (#[trigger] l[j]).0 == k && p(l[j].1)
}

proof fn lemma_keys_where_members<V>(l: Seq<(Seq<char>, V)>, p: spec_fn(V) -> bool)
    ensures
        forall|i: int|
            0 <= i < keys_where(l, p).len() ==> has_where(l, p, #[trigger] keys_where(l, p)[i]),
        forall|j: int|
            0 <= j < l.len() && p((#[trigger] l[j]).1) ==> keys_where(l, p).contains(l[j].0),
    decreases l.len(),
{
    if l.len() > 0 {
        let d = l.drop_last();
        let r = keys_where(l, p);
        let q = keys_where(d, p);
        lemma_keys_where_members(d, p);
        assert forall|i: int| 0 <= i < r.len() implies has_where(l, p, #[trigger] r[i]) by {
            if i < q.len() {
                assert(r[i] == q[i]);
                assert(has_where(d, p, q[i]));
                let j = choose|j: int| 0 <= j < d.len() && (#[trigger] d[j]).0 == q[i] && p(d[j].1);
                assert(l[j] == d[j]);
            } else {
                assert(l[l.len() - 1].0 == r[i]);
            }
        }
        assert forall|j: int| 0 <= j < l.len() && p((#[trigger] l[j]).1) implies r.contains(
            l[j].0,
        ) by {
            if j < d.len() {
                assert(d[j] == l[j]);
                assert(q.contains(d[j].0));
                let i = choose|i: int| 0 <= i < q.len() && q[i] == d[j].0;
                assert(r[i] == l[j].0);
            } else {
                assert(r[r.len() - 1] == l[j].0);
            }
        }
    }
}

proof fn lemma_keys_where_distinct<V>(l: Seq<(Seq<char>, V)>, p: spec_fn(V) -> bool)
    requires
        distinct(l),
    ensures
        forall|i: int, j: int|
            0 <= i < j < keys_where(l, p).len() ==> #[trigger] keys_where(l, p)[i]
                != #[trigger] keys_where(l, p)[j],
    decreases l.len(),
{
    if l.len() > 0 {
        let d = l.drop_last();
        let r = keys_where(l, p);
        let q = keys_where(d, p);
        assert(distinct(d)) by {
            assert forall|i: int, j: int| 0 <= i < j < d.len() implies (#[trigger] d[i]).0 != (
            #[trigger] d[j]).0 by {
                assert(l[i].0 != l[j].0);
            }
        }
        lemma_keys_where_distinct(d, p);
        lemma_keys_where_members(d, p);
        assert forall|i: int, j: int| 0 <= i < j < r.len() implies #[trigger] r[i]
            != #[trigger] r[j] by {
            assert(r[i] == q[i]);
            if j < q.len() {
                assert(r[j] == q[j]);
                assert(q[i] != q[j]);
            } else {
                assert(has_where(d, p, q[i]));
                let k = choose|k: int| 0 <= k < d.len() && (#[trigger] d[k]).0 == q[i] && p(d[k].1);
                assert(l[k] == d[k]);
                assert(l[k].0 != l[l.len() - 1].0);
            }
        }
    }
}

/// The keys that are kept of distinct entries are those of the map.
pub proof fn lemma_keys_where<V>(l: Seq<(Seq<char>, V)>, p: spec_fn(V) -> bool)
    requires
        distinct(l),
    ensures
        selects(keys_where(l, p), map_of(l), p),
{
    let m = map_of(l);
    let r = keys_where(l, p);
    lemma_map_keys(l);
    lemma_map_values(l);
    lemma_keys_where_members(l, p);
    lemma_keys_where_distinct(l, p);
    assert forall|i: int| 0 <= i < r.len() implies m.contains_key(#[trigger] r[i]) && p(m[r[i]]) by {
        assert(has_where(l, p, r[i]));
        let j = choose|j: int| 0 <= j < l.len() && (#[trigger] l[j]).0 == r[i] && p(l[j].1);
        assert(m[l[j].0] == l[j].1);
    }
    assert forall|k: Seq<char>| #[trigger] m.contains_key(k) && p(m[k]) implies exists|i: int|
        0 <= i < r.len() && #[trigger] r[i] == k by {
        let j = choose|j: int| 0 <= j < l.len() && (#[trigger] l[j]).0 == k;
        assert(m[l[j].0] == l[j].1);
        assert(r.contains(l[j].0));
        let i = choose|i: int| 0 <= i < r.len() && r[i] == k;
        assert(r[i] == k);
    }
}

/// A map from texts to values, its entries in order of arrival.
#[verifier::reject_recursive_types(V)]
pub struct Table<V> {
    entries: Vec<(String, V)>,
}

impl<V> Table<V> {
    /// The entries in order.
    pub closed spec fn list(&self) -> Seq<(Seq<char>, V)> {
        self.entries@.map_values(|e: (String, V)| (e.0@, e.1))
    }

    /// No key occurs twice.
    pub open spec fn wf(&self) -> bool {
        distinct(self.list())
    }

    pub fn new() -> (r: Self)
        ensures
            r.wf(),
            r@ == Map::<Seq<char>, V>::empty(),
            r.list() == Seq::<(Seq<char>, V)>::empty(),
    {
        let r = Table { entries: Vec::new() };
        assert(r.list() =~= Seq::<(Seq<char>, V)>::empty());
        r
    }

    pub fn len(&self) -> (r: usize)
        requires
            self.wf(),
        ensures
            r == self.list().len(),
            r == self@.len(),
            self@.dom().finite(),
    {
        proof {
            lemma_map_values(self.list());
        }
        self.entries.len()
    }

    /// The key of the entry at `i`.
    pub fn key_at(&self, i: usize) -> (r: &String)
        requires
            i < self.list().len(),
        ensures
            r@ == self.list()[i as int].0,
    {
        &self.entries[i].0
    }

    /// The value of the entry at `i`.
    pub fn value_at(&self, i: usize) -> (r: &V)
        requires
            i < self.list().len(),
        ensures
            *r == self.list()[i as int].1,
    {
        &self.entries[i].1
    }

    /// Where the entry under `key` stands.
    pub fn position(&self, key: &str) -> (r: Option<usize>)
        requires
            self.wf(),
        ensures
            r is Some == self@.contains_key(key@),
            r matches Some(i) ==> i < self.list().len() && self.list()[i as int] == (
                key@,
                self@[key@],
            ),
    {
        proof {
            lemma_map_keys(self.list());
            lemma_map_values(self.list());
        }
        let mut i: usize = 0;
        while i < self.entries.len()
            invariant
                i <= self.entries@.len(),
                self@ == map_of(self.list()),
                distinct(self.list()),
                forall|k: int|
                    0 <= k < self.list().len() ==> self@.contains_key(
                        (#[trigger] self.list()[k]).0,
                    ) && self@[self.list()[k].0] == self.list()[k].1,
                forall|k: int| 0 <= k < i ==> (#[trigger] self.list()[k]).0 != key@,
            decreases self.entries@.len() - i,
        {
            if text::same(self.entries[i].0.as_str(), key) {
                assert(self.list()[i as int].0 == key@);
                return Some(i);
            }
            assert(self.list()[i as int].0 != key@);
            i = i + 1;
        }
        None
    }

    pub fn contains_key(&self, key: &str) -> (r: bool)
        requires
            self.wf(),
        ensures
            r == self@.contains_key(key@),
    {
        self.position(key).is_some()
    }

    pub fn get(&self, key: &str) -> (r: Option<&V>)
        requires
            self.wf(),
        ensures
            r is Some == self@.contains_key(key@),
            r matches Some(v) ==> *v == self@[key@],
    {
        match self.position(key) {
            Some(i) => Some(&self.entries[i].1),
            None => None,
        }
    }

    /// The keys of the values that `test` accepts, in order.
    pub(crate) fn select<F: Fn(&V) -> bool>(&self, test: F, Ghost(p): Ghost<spec_fn(V) -> bool>) -> (r: Vec<
        String,
    >)
        requires
            self.wf(),
            forall|v: V| #[trigger] test.requires((&v,)),
            forall|v: V, b: bool| #[trigger] test.ensures((&v,), b) ==> b == p(v),
        ensures
            selects(text::views(r@), self@, p),
    {
        let mut r: Vec<String> = Vec::new();
        let mut i: usize = 0;
        let ghost l = self.list();
        assert(text::views(r@) =~= keys_where(l.take(0), p));
        while i < self.entries.len()
            invariant
                i <= self.entries@.len(),
                l == self.list(),
                l.len() == self.entries@.len(),
                forall|v: V| #[trigger] test.requires((&v,)),
                forall|v: V, b: bool| #[trigger] test.ensures((&v,), b) ==> b == p(v),
                text::views(r@) == keys_where(l.take(i as int), p),
            decreases self.entries@.len() - i,
        {
            let ghost before = r@;
            assert(l.take(i + 1).drop_last() =~= l.take(i as int));
            assert(l.take(i + 1).last() == l[i as int]);
            if test(&self.entries[i].1) {
                r.push(self.entries[i].0.clone());
                assert(text::views(r@) =~= text::views(before).push(l[i as int].0));
            }
            i = i + 1;
        }
        proof {
            assert(l.take(i as int) =~= l);
            lemma_keys_where(l, p);
        }
        r
    }

    /// Puts `value` under `key`: in place of the entry that was there, else at the end.
    pub fn insert(&mut self, key: String, value: V)
        requires
            old(self).wf(),
        ensures
            final(self).wf(),
            final(self)@ == old(self)@.insert(key@, value),
            old(self)@.contains_key(key@) ==> final(self).list().len() == old(self).list().len(),
            !old(self)@.contains_key(key@) ==> final(self).list() == old(self).list().push(
                (key@, value),
            ),
    {
        proof {
            lemma_map_keys(self.list());
            lemma_map_values(self.list());
        }
        let ghost before = *self;
        match self.position(key.as_str()) {
            Some(i) => {
                let ghost after = before.entries@.update(i as int, (key, value)).map_values(
                    |e: (String, V)| (e.0@, e.1),
                );
                proof {
                    assert(after =~= before.list().update(i as int, (key@, value)));
                    assert forall|p: int, q: int| 0 <= p < q < after.len() implies (
                    #[trigger] after[p]).0 != (#[trigger] after[q]).0 by {
                        assert(before.list()[p].0 != before.list()[q].0);
                    }
                    lemma_map_keys(after);
                    lemma_map_values(after);
                }
                self.entries[i] = (key, value);
                proof {
                    assert(self.list() == after);
                    assert forall|k: Seq<char>| self@.contains_key(k) <==> before@.insert(
                        key@,
                        value,
                    ).contains_key(k) by {
                        if listed(after, k) {
                            let j = choose|j: int| 0 <= j < after.len() && (#[trigger] after[j]).0 == k;
                            assert(before.list()[j].0 == k);
                        }
                        if listed(before.list(), k) {
                            let j = choose|j: int|
                                0 <= j < before.list().len() && (#[trigger] before.list()[j]).0 == k;
                            assert(after[j].0 == k);
                        }
                    }
                    assert forall|k: Seq<char>| self@.contains_key(k) implies self@[k]
                        == before@.insert(key@, value)[k] by {
                        let j = choose|j: int| 0 <= j < after.len() && (#[trigger] after[j]).0 == k;
                        assert(before.list()[j].0 == k);
                    }
                    assert(self@ =~= before@.insert(key@, value));
                }
            },
            None => {
                let ghost after = before.entries@.push((key, value)).map_values(
                    |e: (String, V)| (e.0@, e.1),
                );
                proof {
                    assert(after =~= before.list().push((key@, value)));
                    assert forall|p: int, q: int| 0 <= p < q < after.len() implies (
                    #[trigger] after[p]).0 != (#[trigger] after[q]).0 by {
                        assert(before.list()[p].0 == after[p].0);
                        if q < before.list().len() {
                            assert(before.list()[p].0 != before.list()[q].0);
                        }
                    }
                    assert(after.drop_last() =~= before.list());
                }
                self.entries.push((key, value));
                assert(self.list() == after);
            },
        }
    }

    /// Takes out the entry under `key`; the others keep their order.
    pub fn remove(&mut self, key: &str) -> (r: Option<V>)
        requires
            old(self).wf(),
        ensures
            final(self).wf(),
            final(self)@ == old(self)@.remove(key@),
            r is Some == old(self)@.contains_key(key@),
            r matches Some(v) ==> v == old(self)@[key@],
            r is None ==> final(self).list() == old(self).list(),
            r is Some ==> exists|i: int|
                0 <= i < old(self).list().len() && #[trigger] old(self).list()[i] == (
                    key@,
                    old(self)@[key@],
                ) && final(self).list() == old(self).list().remove(i),
    {
        proof {
            lemma_map_keys(self.list());
            lemma_map_values(self.list());
        }
        let ghost before = *self;
        match self.position(key) {
            Some(i) => {
                let ghost after = before.entries@.remove(i as int).map_values(
                    |e: (String, V)| (e.0@, e.1),
                );
                proof {
                    assert(after =~= before.list().remove(i as int));
                    assert forall|p: int, q: int| 0 <= p < q < after.len() implies (
                    #[trigger] after[p]).0 != (#[trigger] after[q]).0 by {
                        let p1 = if p < i { p } else { p + 1 };
                        let q1 = if q < i { q } else { q + 1 };
                        assert(before.list()[p1].0 != before.list()[q1].0);
                    }
                    lemma_map_keys(after);
                    lemma_map_values(after);
                }
                let e = self.entries.remove(i);
                proof {
                    assert(self.list() == after);
                    assert(before.list()[i as int] == (key@, e.1));
                    assert forall|k: Seq<char>| self@.contains_key(k) <==> before@.remove(
                        key@,
                    ).contains_key(k) by {
                        if listed(after, k) {
                            let j = choose|j: int| 0 <= j < after.len() && (#[trigger] after[j]).0 == k;
                            let j1 = if j < i { j } else { j + 1 };
                            assert(before.list()[j1].0 == k);
                            assert(before.list()[i as int].0 != k);
                        }
                        if listed(before.list(), k) && k != key@ {
                            let j = choose|j: int|
                                0 <= j < before.list().len() && (#[trigger] before.list()[j]).0 == k;
                            let j1 = if j < i { j } else { j - 1 };
                            assert(after[j1].0 == k);
                        }
                    }
                    assert forall|k: Seq<char>| self@.contains_key(k) implies self@[k]
                        == before@.remove(key@)[k] by {
                        let j = choose|j: int| 0 <= j < after.len() && (#[trigger] after[j]).0 == k;
                        let j1 = if j < i { j } else { j + 1 };
                        assert(before.list()[j1].0 == k);
                    }
                    assert(self@ =~= before@.remove(key@));
                }
                Some(e.1)
            },
            None => {
                assert(self@.remove(key@) =~= self@);
                None
            },
        }
    }
}

impl<V> View for Table<V> {
    type V = Map<Seq<char>, V>;

    open spec fn view(&self) -> Map<Seq<char>, V> {
        map_of(self.list())
    }
}

} // verus!
