//! A small table from keys to values, held as a list without repeated keys.

use vstd::prelude::*;

verus! {

/// A key of a table: what matters of it is its view.
pub trait Key: View + Sized {
    /// Whether two keys have the same view.
    fn same(&self, other: &Self) -> (r: bool)
        ensures
            r == (self@ == other@),
    ;

    /// Another key with the same view.
    fn duplicate(&self) -> (r: Self)
        ensures
            r@ == self@,
    ;
}

impl Key for String {
    fn same(&self, other: &Self) -> (r: bool) {
        *self == *other
    }

    fn duplicate(&self) -> (r: Self) {
        self.clone()
    }
}

/// One row of a table.
pub struct Row<K: Key, V: View> {
    pub key: K,
    pub value: V,
}

/// A table: rows in the order in which their keys were first entered.
pub struct Table<K: Key, V: View> {
    rows: Vec<Row<K, V>>,
}

/// The rows as a map from key to value.
pub open spec fn rows_map<K: Key, V: View>(rows: Seq<Row<K, V>>) -> Map<K::V, V::V>
    decreases rows.len(),
{
    if rows.len() == 0 {
        Map::empty()
    } else {
        rows_map(rows.drop_last()).insert(rows.last().key@, rows.last().value@)
    }
}

/// Whether no key stands in two rows.
pub open spec fn distinct_keys<K: Key, V: View>(rows: Seq<Row<K, V>>) -> bool {
    forall|i: int, j: int|
        0 <= i < j < rows.len() ==> #[trigger] rows[i].key@ != #[trigger] rows[j].key@
}

/// The rows of a table without repeated keys are what its map holds.
pub proof fn lemma_rows_map<K: Key, V: View>(rows: Seq<Row<K, V>>)
    requires
        distinct_keys(rows),
    ensures
        forall|i: int|
            0 <= i < rows.len() ==> rows_map(rows).dom().contains(#[trigger] rows[i].key@)
                && rows_map(rows)[rows[i].key@] == rows[i].value@,
        forall|k: K::V|
            rows_map(rows).dom().contains(k) ==> exists|i: int|
                0 <= i < rows.len() && #[trigger] rows[i].key@ == k,
    decreases rows.len(),
{
    if rows.len() > 0 {
        let front = rows.drop_last();
        assert forall|i: int, j: int| 0 <= i < j < front.len() implies #[trigger] front[i].key@
            != #[trigger] front[j].key@ by {
            assert(rows[i].key@ != rows[j].key@);
        }
        lemma_rows_map(front);
        assert forall|i: int| 0 <= i < rows.len() implies rows_map(rows).dom().contains(
            #[trigger] rows[i].key@,
        ) && rows_map(rows)[rows[i].key@] == rows[i].value@ by {
            if i < rows.len() - 1 {
                assert(front[i] == rows[i]);
                assert(rows[i].key@ != rows[rows.len() - 1].key@);
            }
        }
        assert forall|k: K::V| rows_map(rows).dom().contains(k) implies exists|i: int|
            0 <= i < rows.len() && #[trigger] rows[i].key@ == k by {
            if k == rows.last().key@ {
                assert(rows[rows.len() - 1].key@ == k);
            } else {
                assert(rows_map(front).dom().contains(k));
                let i = choose|i: int| 0 <= i < front.len() && #[trigger] front[i].key@ == k;
                assert(front[i] == rows[i]);
                assert(rows[i].key@ == k);
            }
        }
    }
}

impl<K: Key, V: View> View for Table<K, V> {
    type V = Map<K::V, V::V>;

    closed spec fn view(&self) -> Map<K::V, V::V> {
        rows_map(self.rows@)
    }
}

impl<K: Key, V: View> Table<K, V> {
    /// The rows, in order.
    pub closed spec fn spec_rows(&self) -> Seq<Row<K, V>> {
        self.rows@
    }

    /// Whether the table is well formed: no key stands in it twice.
    pub closed spec fn wf(&self) -> bool {
        distinct_keys(self.rows@)
    }

    /// The table without rows.
    pub fn new() -> (r: Self)
        ensures
            r.wf(),
            r@ == Map::<K::V, V::V>::empty(),
    {
        Table { rows: Vec::new() }
    }

    fn find(&self, key: &K) -> (r: Option<usize>)
        requires
            self.wf(),
        ensures
            match r {
                Some(i) => i < self.rows@.len() && self.rows@[i as int].key@ == key@
                    && self@.dom().contains(key@) && self@[key@] == self.rows@[i as int].value@,
                None => !self@.dom().contains(key@) && forall|i: int|
                    0 <= i < self.rows@.len() ==> #[trigger] self.rows@[i].key@ != key@,
            },
    {
        proof {
            lemma_rows_map(self.rows@);
        }
        for i in 0..self.rows.len()
            invariant
                forall|j: int| 0 <= j < i ==> #[trigger] self.rows@[j].key@ != key@,
                self.wf(),
                forall|i: int|
                    0 <= i < self.rows@.len() ==> rows_map(self.rows@).dom().contains(
                        #[trigger] self.rows@[i].key@,
                    ) && rows_map(self.rows@)[self.rows@[i].key@] == self.rows@[i].value@,
        {
            if self.rows[i].key.same(key) {
                return Some(i);
            }
        }
        None
    }

    /// The value under `key`.
    pub fn get(&self, key: &K) -> (r: Option<&V>)
        requires
            self.wf(),
        ensures
            r is Some <==> self@.dom().contains(key@),
            r matches Some(v) ==> v@ == self@[key@],
    {
        match self.find(key) {
            Some(i) => Some(&self.rows[i].value),
            None => None,
        }
    }

    /// Enters `value` under `key`, in place of what stood there.
    pub fn insert(&mut self, key: K, value: V)
        requires
            old(self).wf(),
        ensures
            final(self).wf(),
            final(self)@ == old(self)@.insert(key@, value@),
    {
        match self.find(&key) {
            Some(i) => {
                let ghost before = self.rows@;
                self.rows[i] = Row { key, value };
                proof {
                    assert(self.rows@ =~= before.update(i as int, Row { key, value }));
                    assert(distinct_keys(self.rows@));
                    lemma_rows_map(before);
                    lemma_rows_map(self.rows@);
                    assert forall|k: K::V|
                        rows_map(self.rows@).dom().contains(k) == rows_map(before).insert(
                            key@,
                            value@,
                        ).dom().contains(k) by {
                        if rows_map(self.rows@).dom().contains(k) {
                            let j = choose|j: int|
                                0 <= j < self.rows@.len() && #[trigger] self.rows@[j].key@ == k;
                            assert(before[j].key@ == k);
                        }
                        if rows_map(before).dom().contains(k) {
                            let j = choose|j: int|
                                0 <= j < before.len() && #[trigger] before[j].key@ == k;
                            assert(self.rows@[j].key@ == k);
                        }
                        assert(self.rows@[i as int].key@ == key@);
                    }
                    assert forall|k: K::V| rows_map(self.rows@).dom().contains(k) implies rows_map(
                        self.rows@,
                    )[k] == rows_map(before).insert(key@, value@)[k] by {
                        let j = choose|j: int|
                            0 <= j < self.rows@.len() && #[trigger] self.rows@[j].key@ == k;
                        assert(before[j].key@ == k);
                        assert(before[i as int].key@ == key@);
                    }
                    assert(self@ =~= rows_map(before).insert(key@, value@));
                }
            },
            None => {
                let ghost before = self.rows@;
                self.rows.push(Row { key, value });
                assert(self.rows@.drop_last() =~= before);
            },
        }
    }

    /// Takes out the row of `key`.
    pub fn remove(&mut self, key: &K) -> (r: Option<V>)
        requires
            old(self).wf(),
        ensures
            final(self).wf(),
            final(self)@ == old(self)@.remove(key@),
            r is Some <==> old(self)@.dom().contains(key@),
            r matches Some(v) ==> v@ == old(self)@[key@],
    {
        match self.find(key) {
            Some(i) => {
                let ghost before = self.rows@;
                let row = self.rows.remove(i);
                proof {
                    assert(self.rows@ =~= before.remove(i as int));
                    assert forall|a: int, b: int| 0 <= a < b < self.rows@.len() implies #[trigger] self.rows@[a].key@
                        != #[trigger] self.rows@[b].key@ by {
                        let x = if a < i { a } else { a + 1 };
                        let y = if b < i { b } else { b + 1 };
                        assert(before[x].key@ != before[y].key@);
                    }
                    lemma_rows_map(before);
                    lemma_rows_map(self.rows@);
                    assert forall|k: K::V|
                        rows_map(self.rows@).dom().contains(k) == rows_map(before).remove(
                            key@,
                        ).dom().contains(k) by {
                        if rows_map(self.rows@).dom().contains(k) {
                            let j = choose|j: int|
                                0 <= j < self.rows@.len() && #[trigger] self.rows@[j].key@ == k;
                            let x = if j < i { j } else { j + 1 };
                            assert(before[x].key@ == k);
                            assert(before[i as int].key@ == key@);
                        }
                        if rows_map(before).dom().contains(k) && k != key@ {
                            let j = choose|j: int|
                                0 <= j < before.len() && #[trigger] before[j].key@ == k;
                            let x = if j < i { j } else { j - 1 };
                            assert(self.rows@[x].key@ == k);
                        }
                    }
                    assert forall|k: K::V| rows_map(self.rows@).dom().contains(k) implies rows_map(
                        self.rows@,
                    )[k] == rows_map(before).remove(key@)[k] by {
                        let j = choose|j: int|
                            0 <= j < self.rows@.len() && #[trigger] self.rows@[j].key@ == k;
                        let x = if j < i { j } else { j + 1 };
                        assert(before[x].key@ == k);
                    }
                    assert(self@ =~= rows_map(before).remove(key@));
                }
                Some(row.value)
            },
            None => {
                assert(self@.remove(key@) =~= self@);
                None
            },
        }
    }

    /// The number of rows.
    pub fn len(&self) -> (n: usize)
        ensures
            n == self.spec_rows().len(),
    {
        self.rows.len()
    }

    /// The row at a position.
    pub fn row(&self, i: usize) -> (r: &Row<K, V>)
        requires
            i < self.spec_rows().len(),
        ensures
            *r == self.spec_rows()[i as int],
    {
        &self.rows[i]
    }

    /// What the rows say of the map: each row stands in it, and nothing else does.
    pub proof fn lemma_rows(&self)
        requires
            self.wf(),
        ensures
            self@ == rows_map(self.spec_rows()),
            distinct_keys(self.spec_rows()),
            forall|i: int|
                0 <= i < self.spec_rows().len() ==> self@.dom().contains(
                    #[trigger] self.spec_rows()[i].key@,
                ) && self@[self.spec_rows()[i].key@] == self.spec_rows()[i].value@,
            forall|k: K::V|
                self@.dom().contains(k) ==> exists|i: int|
                    0 <= i < self.spec_rows().len() && #[trigger] self.spec_rows()[i].key@ == k,
    {
        lemma_rows_map(self.rows@);
        assert forall|k: K::V| self@.dom().contains(k) implies exists|i: int|
            0 <= i < self.spec_rows().len() && #[trigger] self.spec_rows()[i].key@ == k by {
            let i = choose|i: int| 0 <= i < self.rows@.len() && #[trigger] self.rows@[i].key@ == k;
            assert(self.spec_rows()[i].key@ == k);
        }
    }
}

} // verus!
