use vstd::prelude::*;
use crate::text::same_text;

verus! {

/// The position of the last entry keyed `k`, or -1 when there is none.
pub open spec fn index_of<T>(t: Seq<(Seq<char>, T)>, k: Seq<char>) -> int
    decreases t.len(),
{
    if t.len() == 0 {
        -1
    } else if t.last().0 == k {
        t.len() - 1
    } else {
        index_of(t.drop_last(), k)
    }
}

/// The value under `k`, if any.
pub open spec fn lookup<T>(t: Seq<(Seq<char>, T)>, k: Seq<char>) -> Option<T> {
    if index_of(t, k) >= 0 {
        Some(t[index_of(t, k)].1)
    } else {
        None
    }
}

/// `t` with `v` under `k`: the entry for `k` is replaced in place, or a new one
/// is added at the end.
pub open spec fn assign<T>(t: Seq<(Seq<char>, T)>, k: Seq<char>, v: T) -> Seq<(Seq<char>, T)> {
    if index_of(t, k) >= 0 {
        t.update(index_of(t, k), (k, v))
    } else {
        t.push((k, v))
    }
}

pub proof fn lemma_index_of<T>(t: Seq<(Seq<char>, T)>, k: Seq<char>)
    ensures
        -1 <= index_of(t, k) < t.len(),
        index_of(t, k) >= 0 ==> t[index_of(t, k)].0 == k,
        index_of(t, k) >= 0 ==> forall|j: int| index_of(t, k) < j < t.len() ==> t[j].0 != k,
        index_of(t, k) < 0 ==> forall|j: int| 0 <= j < t.len() ==> t[j].0 != k,
    decreases t.len(),
{
    if t.len() > 0 && t.last().0 != k {
        lemma_index_of(t.drop_last(), k);
        assert forall|j: int| 0 <= j < t.len() - 1 implies t[j] == t.drop_last()[j] by {}
    }
}

/// Two tables whose keys agree position by position find a key at the same place.
pub proof fn lemma_index_of_same_keys<A, B>(a: Seq<(Seq<char>, A)>, b: Seq<(Seq<char>, B)>, k: Seq<char>)
    requires
        a.len() == b.len(),
        forall|j: int| 0 <= j < a.len() ==> a[j].0 == b[j].0,
    ensures
        index_of(a, k) == index_of(b, k),
    decreases a.len(),
{
    if a.len() > 0 {
        lemma_index_of_same_keys(a.drop_last(), b.drop_last(), k);
    }
}

/// Named entries in the order they were first added.
pub struct Table<V> {
    pub entries: Vec<(String, V)>,
}

impl<V> Table<V> {
    pub open spec fn keyed(&self) -> Seq<(Seq<char>, V)> {
        self.entries@.map_values(|e: (String, V)| (e.0@, e.1))
    }

    pub fn new() -> (r: Self)
        ensures
            r.keyed() == Seq::<(Seq<char>, V)>::empty(),
    {
        let r = Table { entries: Vec::new() };
        assert(r.keyed() =~= Seq::<(Seq<char>, V)>::empty());
        r
    }

    pub fn len(&self) -> (r: usize)
        ensures
            r == self.keyed().len(),
    {
        self.entries.len()
    }

    /// The position of the entry keyed `key`, if any.
    pub fn find(&self, key: &str) -> (r: Option<usize>)
        ensures
            index_of(self.keyed(), key@) < 0 ==> r is None,
            index_of(self.keyed(), key@) >= 0 ==> r is Some,
            r matches Some(i) ==> i as int == index_of(self.keyed(), key@) && i < self.entries.len(),
    {
        let mut j: usize = self.entries.len();
        assert(self.keyed().subrange(0, j as int) =~= self.keyed());
        while j > 0
            invariant
                j <= self.entries.len(),
                index_of(self.keyed(), key@) == index_of(self.keyed().subrange(0, j as int), key@),
            decreases j,
        {
            let ghost t = self.keyed().subrange(0, j as int);
            assert(t.drop_last() =~= self.keyed().subrange(0, j - 1));
            if same_text(self.entries[j - 1].0.as_str(), key) {
                return Some(j - 1);
            }
            j = j - 1;
        }
        None
    }

    pub fn get(&self, key: &str) -> (r: Option<&V>)
        ensures
            r matches Some(v) ==> lookup(self.keyed(), key@) == Some(*v),
            r is None ==> lookup(self.keyed(), key@) is None,
    {
        proof {
            lemma_index_of(self.keyed(), key@);
        }
        match self.find(key) {
            Some(i) => {
                let e = &self.entries[i];
                assert(self.keyed()[i as int].1 == e.1);
                Some(&e.1)
            },
            None => None,
        }
    }

    pub fn insert(&mut self, key: String, value: V)
        ensures
            final(self).keyed() == assign(old(self).keyed(), key@, value),
    {
        proof {
            lemma_index_of(self.keyed(), key@);
        }
        match self.find(key.as_str()) {
            Some(i) => {
                self.entries.set(i, (key, value));
                assert(self.keyed() =~= assign(old(self).keyed(), key@, value));
            },
            None => {
                self.entries.push((key, value));
                assert(self.keyed() =~= assign(old(self).keyed(), key@, value));
            },
        }
    }

    pub fn clear(&mut self)
        ensures
            final(self).keyed() == Seq::<(Seq<char>, V)>::empty(),
    {
        self.entries = Vec::new();
        assert(self.keyed() =~= Seq::<(Seq<char>, V)>::empty());
    }
}

} // verus!

verus! {

/// The entries with each value replaced by its deep view.
pub open spec fn deep_entries<A: DeepView>(t: Seq<(Seq<char>, A)>) -> Seq<(Seq<char>, A::V)> {
    t.map_values(|e: (Seq<char>, A)| (e.0, e.1.deep_view()))
}

pub proof fn lemma_deep_index_of<A: DeepView>(t: Seq<(Seq<char>, A)>, k: Seq<char>)
    ensures
        index_of(deep_entries(t), k) == index_of(t, k),
        lookup(deep_entries(t), k) == (match lookup(t, k) {
            Some(v) => Some(v.deep_view()),
            None => None,
        }),
{
    lemma_index_of_same_keys(t, deep_entries(t), k);
    lemma_index_of(t, k);
}

pub proof fn lemma_deep_assign<A: DeepView>(t: Seq<(Seq<char>, A)>, k: Seq<char>, v: A)
    ensures
        deep_entries(assign(t, k, v)) == assign(deep_entries(t), k, v.deep_view()),
{
    lemma_deep_index_of(t, k);
    lemma_index_of(t, k);
    assert(deep_entries(assign(t, k, v)) =~= assign(deep_entries(t), k, v.deep_view()));
}

} // verus!

verus! {

pub proof fn lemma_lookup_assign<T>(t: Seq<(Seq<char>, T)>, k: Seq<char>, v: T, other: Seq<char>)
    ensures
        lookup(assign(t, k, v), k) == Some(v),
        other != k ==> lookup(assign(t, k, v), other) == lookup(t, other),
{
    lemma_index_of(t, k);
    lemma_index_of(t, other);
    let a = assign(t, k, v);
    lemma_index_of(a, k);
    lemma_index_of(a, other);
    if index_of(a, k) != a.len() - 1 && index_of(t, k) < 0 {
        assert(a[a.len() - 1].0 == k);
    }
    if index_of(t, k) >= 0 {
        assert(a[index_of(t, k)].0 == k);
        if index_of(a, k) != index_of(t, k) {
            if index_of(a, k) < index_of(t, k) {
                assert(a[index_of(t, k)].0 == k);
            } else {
                assert(t[index_of(a, k)].0 == k);
            }
        }
    }
    if other != k {
        if index_of(t, other) >= 0 {
            assert(a[index_of(t, other)].0 == other);
            if index_of(a, other) > index_of(t, other) {
                assert(t[index_of(a, other)] == a[index_of(a, other)] || index_of(a, other) == t.len());
            }
        }
        if index_of(a, other) >= 0 && index_of(a, other) < t.len() {
            assert(t[index_of(a, other)].0 == other);
        }
    }
}

} // verus!
