//! A small keyed table: rows in insertion order, one row per key.

use vstd::prelude::*;

verus! {

/// A key of a `Table`.
pub trait TableKey: Sized + View {
    /// What keys are told apart by.
    type Key;

    spec fn key(&self) -> Self::Key;

    fn same_key(&self, other: &Self) -> (same: bool)
        ensures
            same == (self.key() == other.key()),
    ;

    fn copy_key(&self) -> (copy: Self)
        ensures
            copy@ == self@,
            copy.key() == self.key(),
    ;
}

/// Rows of a key and a value, one row per key.
pub struct Table<K: TableKey, V: View> {
    rows: Vec<(K, V)>,
}

/// The mapping that rows stand for.
pub open spec fn rows_map<A, B>(rows: Seq<(A, B)>) -> Map<A, B>
    decreases rows.len(),
{
    if rows.len() == 0 {
        Map::empty()
    } else {
        rows_map(rows.drop_last()).insert(rows.last().0, rows.last().1)
    }
}

/// No key occurs twice.
pub open spec fn distinct_keys<A, B>(rows: Seq<(A, B)>) -> bool {
    forall|i: int, j: int| 0 <= i < j < rows.len() ==> rows[i].0 != rows[j].0
}

spec fn rows_view<K: TableKey, V: View>(rows: Seq<(K, V)>) -> Seq<(K::Key, V::V)> {
    Seq::new(rows.len(), |i: int| (rows[i].0.key(), rows[i].1@))
}

/// Each row of distinct keys counts.
pub proof fn lemma_row_counts<A, B>(rows: Seq<(A, B)>, i: int)
    requires
        0 <= i < rows.len(),
        distinct_keys(rows),
    ensures
        rows_map(rows).contains_key(rows[i].0),
        rows_map(rows)[rows[i].0] == rows[i].1,
    decreases rows.len(),
{
    if i < rows.len() - 1 {
        lemma_row_counts(rows.drop_last(), i);
        assert(rows[i].0 != rows.last().0);
    }
}

proof fn lemma_miss<A, B>(rows: Seq<(A, B)>, key: A)
    requires
        forall|i: int| 0 <= i < rows.len() ==> (#[trigger] rows[i]).0 != key,
    ensures
        !rows_map(rows).contains_key(key),
    decreases rows.len(),
{
    if rows.len() > 0 {
        lemma_miss(rows.drop_last(), key);
    }
}

/// A key of the mapping stands in some row.
pub proof fn lemma_row_of_key<A, B>(rows: Seq<(A, B)>, key: A)
    requires
        rows_map(rows).contains_key(key),
    ensures
        exists|i: int| 0 <= i < rows.len() && (#[trigger] rows[i]).0 == key,
    decreases rows.len(),
{
    if rows.last().0 == key {
        assert(rows[rows.len() - 1].0 == key);
    } else {
        lemma_row_of_key(rows.drop_last(), key);
        let i = choose|i: int|
            0 <= i < rows.drop_last().len() && (#[trigger] rows.drop_last()[i]).0 == key;
        assert(rows[i].0 == key);
    }
}

/// A mapping made of rows has as many keys as there are rows.
pub proof fn lemma_rows_len<A, B>(rows: Seq<(A, B)>)
    requires
        distinct_keys(rows),
    ensures
        rows_map(rows).dom().finite(),
        rows_map(rows).dom().len() == rows.len(),
    decreases rows.len(),
{
    if rows.len() > 0 {
        let init = rows.drop_last();
        lemma_rows_len(init);
        assert forall|i: int| 0 <= i < init.len() implies (#[trigger] init[i]).0 != rows.last().0 by {
            assert(rows[i].0 != rows[rows.len() - 1].0);
        }
        lemma_miss(init, rows.last().0);
        assert(rows_map(rows).dom() =~= rows_map(init).dom().insert(rows.last().0));
    }
}

proof fn lemma_update<A, B>(rows: Seq<(A, B)>, i: int, value: B)
    requires
        0 <= i < rows.len(),
        distinct_keys(rows),
    ensures
        rows_map(rows.update(i, (rows[i].0, value))) == rows_map(rows).insert(rows[i].0, value),
    decreases rows.len(),
{
    let key = rows[i].0;
    let new = rows.update(i, (key, value));
    if i == rows.len() - 1 {
        assert(new.drop_last() =~= rows.drop_last());
        assert(rows_map(new) =~= rows_map(rows).insert(key, value));
    } else {
        lemma_update(rows.drop_last(), i, value);
        assert(new.drop_last() =~= rows.drop_last().update(i, (key, value)));
        assert(rows.last().0 != key);
        assert(rows_map(new) =~= rows_map(rows).insert(key, value));
    }
}

proof fn lemma_remove<A, B>(rows: Seq<(A, B)>, i: int)
    requires
        0 <= i < rows.len(),
        distinct_keys(rows),
    ensures
        rows_map(rows.remove(i)) == rows_map(rows).remove(rows[i].0),
        distinct_keys(rows.remove(i)),
    decreases rows.len(),
{
    let key = rows[i].0;
    let new = rows.remove(i);
    if i == rows.len() - 1 {
        assert(new =~= rows.drop_last());
        assert forall|j: int| 0 <= j < new.len() implies (#[trigger] new[j]).0 != key by {
            assert(rows[j].0 != rows[i].0);
        }
        lemma_miss(new, key);
        assert(rows_map(new) =~= rows_map(rows).remove(key));
    } else {
        lemma_remove(rows.drop_last(), i);
        assert(new.drop_last() =~= rows.drop_last().remove(i));
        assert(new.last() == rows.last());
        assert(rows.last().0 != key);
        assert(rows_map(new) =~= rows_map(rows).remove(key));
    }
}

impl<K: TableKey, V: View> View for Table<K, V> {
    type V = Map<K::Key, V::V>;

    closed spec fn view(&self) -> Map<K::Key, V::V> {
        rows_map(self.row_views())
    }
}

impl<K: TableKey, V: View> Table<K, V> {
    #[verifier::type_invariant]
    spec fn one_row_per_key(self) -> bool {
        distinct_keys(rows_view(self.rows@))
    }

    /// The rows in insertion order.
    pub closed spec fn row_views(&self) -> Seq<(K::Key, V::V)> {
        rows_view(self.rows@)
    }

    pub fn new() -> (t: Self)
        ensures
            t@ == Map::<K::Key, V::V>::empty(),
    {
        let rows: Vec<(K, V)> = Vec::new();
        assert(rows_view(rows@) =~= Seq::empty());
        Table { rows }
    }

    /// The number of rows. The table holds exactly its rows, and no key twice.
    pub fn len(&self) -> (n: usize)
        ensures
            n == self@.dom().len(),
            n == self.row_views().len(),
            self@.dom().finite(),
            self@ == rows_map(self.row_views()),
            distinct_keys(self.row_views()),
    {
        proof {
            use_type_invariant(self);
            lemma_rows_len(self.row_views());
        }
        self.rows.len()
    }

    /// The key of a row.
    pub fn key_at(&self, i: usize) -> (k: &K)
        requires
            i < self.row_views().len(),
        ensures
            k.key() == self.row_views()[i as int].0,
    {
        &self.rows[i].0
    }

    /// The value of a row.
    pub fn value_at(&self, i: usize) -> (v: &V)
        requires
            i < self.row_views().len(),
        ensures
            v@ == self.row_views()[i as int].1,
    {
        &self.rows[i].1
    }

    fn position(&self, key: &K) -> (found: Option<usize>)
        ensures
            match found {
                Some(i) => i < self.rows@.len() && self.rows@[i as int].0.key() == key.key()
                    && self@.contains_key(key.key()) && self@[key.key()] == self.rows@[i as int].1@,
                None => !self@.contains_key(key.key()) && forall|j: int|
                    0 <= j < self.rows@.len() ==> (#[trigger] self.rows@[j]).0.key() != key.key(),
            },
    {
        proof {
            use_type_invariant(self);
        }
        let ghost rows = self.row_views();
        let mut i: usize = 0;
        while i < self.rows.len()
            invariant
                i <= self.rows@.len(),
                rows == rows_view(self.rows@),
                rows == self.row_views(),
                distinct_keys(rows),
                forall|j: int| 0 <= j < i ==> (#[trigger] self.rows@[j]).0.key() != key.key(),
            decreases self.rows@.len() - i,
        {
            if self.rows[i].0.same_key(key) {
                proof {
                    lemma_row_counts(rows, i as int);
                }
                return Some(i);
            }
            i = i + 1;
        }
        proof {
            assert forall|j: int| 0 <= j < rows.len() implies (#[trigger] rows[j]).0 != key.key() by {
                assert(self.rows@[j].0.key() != key.key());
            }
            lemma_miss(rows, key.key());
        }
        None
    }

    pub fn contains(&self, key: &K) -> (b: bool)
        ensures
            b == self@.contains_key(key.key()),
    {
        match self.position(key) {
            Some(_) => true,
            None => false,
        }
    }

    pub fn get(&self, key: &K) -> (found: Option<&V>)
        ensures
            match found {
                Some(v) => self@.contains_key(key.key()) && self@[key.key()] == v@,
                None => !self@.contains_key(key.key()),
            },
    {
        match self.position(key) {
            Some(i) => Some(&self.rows[i].1),
            None => None,
        }
    }

    /// Sets the row of a key.
    pub fn insert(&mut self, key: K, value: V)
        ensures
            final(self)@ == old(self)@.insert(key.key(), value@),
    {
        proof {
            use_type_invariant(&*self);
        }
        let found = self.position(&key);
        let ghost before = self.row_views();
        let mut rows: Vec<(K, V)> = Vec::new();
        assert(rows_view(rows@) =~= Seq::empty());
        std::mem::swap(&mut rows, &mut self.rows);
        match found {
            Some(i) => {
                rows.set(i, (key, value));
                proof {
                    lemma_update(before, i as int, value@);
                    let new = rows_view(rows@);
                    assert(new =~= before.update(i as int, (key.key(), value@)));
                    assert forall|a: int, b: int| 0 <= a < b < new.len() implies new[a].0
                        != new[b].0 by {
                        assert(before[a].0 != before[b].0);
                    }
                }
            },
            None => {
                rows.push((key, value));
                proof {
                    let new = rows_view(rows@);
                    assert(new.drop_last() =~= before);
                    assert(new.last() == (key.key(), value@));
                    assert forall|a: int, b: int| 0 <= a < b < new.len() implies new[a].0
                        != new[b].0 by {
                        assert(new[a].0 == before[a].0);
                        if b < before.len() {
                            assert(before[a].0 != before[b].0);
                        } else {
                            assert(old(self).rows@[a].0.key() != key.key());
                        }
                    }
                }
            },
        }
        self.rows = rows;
    }

    /// Takes the row of a key out.
    pub fn remove(&mut self, key: &K) -> (taken: Option<V>)
        ensures
            final(self)@ == old(self)@.remove(key.key()),
            match taken {
                Some(v) => old(self)@.contains_key(key.key()) && old(self)@[key.key()] == v@,
                None => !old(self)@.contains_key(key.key()),
            },
    {
        proof {
            use_type_invariant(&*self);
        }
        let found = self.position(key);
        match found {
            Some(i) => {
                let ghost before = self.row_views();
                let mut rows: Vec<(K, V)> = Vec::new();
                assert(rows_view(rows@) =~= Seq::empty());
                std::mem::swap(&mut rows, &mut self.rows);
                let (_, value) = rows.remove(i);
                proof {
                    lemma_remove(before, i as int);
                    assert(rows_view(rows@) =~= before.remove(i as int));
                }
                self.rows = rows;
                Some(value)
            },
            None => {
                assert(self@.remove(key.key()) =~= self@);
                None
            },
        }
    }

    /// Takes every row out.
    pub fn clear(&mut self)
        ensures
            final(self)@ == Map::<K::Key, V::V>::empty(),
    {
        let rows: Vec<(K, V)> = Vec::new();
        assert(rows_view(rows@) =~= Seq::empty());
        self.rows = rows;
    }
}

} // verus!
