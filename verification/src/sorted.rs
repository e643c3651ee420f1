//! A map with text keys that is read in the order of its keys.

use crate::table::Row;
use crate::text::{chars_of, same_text};
use vstd::prelude::*;

verus! {

/// Whether `a` comes before `b` in the order of their characters.
pub open spec fn text_less(a: Seq<char>, b: Seq<char>) -> bool
    decreases a.len(),
{
    if b.len() == 0 {
        false
    } else if a.len() == 0 {
        true
    } else if a[0] != b[0] {
        a[0] < b[0]
    } else {
        text_less(a.skip(1), b.skip(1))
    }
}

/// No text comes before itself.
pub proof fn lemma_less_irreflexive(a: Seq<char>)
    ensures
        !text_less(a, a),
    decreases a.len(),
{
    if a.len() > 0 {
        lemma_less_irreflexive(a.skip(1));
    }
}

/// What comes before what comes before, comes before.
pub proof fn lemma_less_transitive(a: Seq<char>, b: Seq<char>, c: Seq<char>)
    requires
        text_less(a, b),
        text_less(b, c),
    ensures
        text_less(a, c),
    decreases a.len(),
{
    if a.len() > 0 && a[0] == b[0] && b[0] == c[0] {
        lemma_less_transitive(a.skip(1), b.skip(1), c.skip(1));
    }
}

/// Of two different texts one comes before the other.
pub proof fn lemma_less_total(a: Seq<char>, b: Seq<char>)
    requires
        !text_less(a, b),
        a != b,
    ensures
        text_less(b, a),
    decreases a.len(),
{
    if a.len() > 0 && b.len() > 0 && a[0] == b[0] {
        if a.skip(1) == b.skip(1) {
            assert(a =~= seq![a[0]] + a.skip(1));
            assert(b =~= seq![b[0]] + b.skip(1));
        }
        lemma_less_total(a.skip(1), b.skip(1));
    } else if a.len() == 0 {
        assert(b.len() == 0 ==> a =~= b);
    }
}

/// Whether `a` comes before `b`.
pub fn is_text_less(a: &str, b: &str) -> (r: bool)
    ensures
        r == text_less(a@, b@),
{
    let x = chars_of(a);
    let y = chars_of(b);
    let mut i: usize = 0;
    assert(x@.skip(0) =~= x@);
    assert(y@.skip(0) =~= y@);
    while i < x.len() && i < y.len() && x[i] == y[i]
        invariant
            x@ == a@,
            y@ == b@,
            i <= x@.len(),
            i <= y@.len(),
            text_less(a@, b@) == text_less(x@.skip(i as int), y@.skip(i as int)),
        decreases x@.len() - i,
    {
        assert(x@.skip(i as int).skip(1) =~= x@.skip(i + 1));
        assert(y@.skip(i as int).skip(1) =~= y@.skip(i + 1));
        i = i + 1;
    }
    if i == y.len() {
        false
    } else if i == x.len() {
        true
    } else {
        x[i] < y[i]
    }
}

/// Whether the keys of rows ascend.
pub open spec fn ascending<V: View>(rows: Seq<Row<String, V>>) -> bool {
    forall|i: int, j: int|
        0 <= i < j < rows.len() ==> text_less(#[trigger] rows[i].key@, #[trigger] rows[j].key@)
}

proof fn lemma_ascending_distinct<V: View>(rows: Seq<Row<String, V>>)
    requires
        ascending(rows),
    ensures
        crate::table::distinct_keys(rows),
{
    assert forall|i: int, j: int| 0 <= i < j < rows.len() implies #[trigger] rows[i].key@
        != #[trigger] rows[j].key@ by {
        lemma_less_irreflexive(rows[i].key@);
    }
}

/// A row that is to stand at position `i`.
pub open spec fn row_at<V: View>(i: int, key: String, value: V) -> Row<String, V> {
    Row { key, value }
}

/// A map that is read in the order of its keys.
pub struct SortedMap<V: View> {
    rows: Vec<Row<String, V>>,
}

impl<V: View> View for SortedMap<V> {
    type V = Map<Seq<char>, V::V>;

    closed spec fn view(&self) -> Map<Seq<char>, V::V> {
        crate::table::rows_map(self.rows@)
    }
}

impl<V: View> SortedMap<V> {
    /// The rows, in the order of their keys.
    pub closed spec fn spec_rows(&self) -> Seq<Row<String, V>> {
        self.rows@
    }

    /// Whether the keys ascend.
    pub open spec fn wf(&self) -> bool {
        ascending(self.spec_rows())
    }

    /// What the rows say of the map.
    pub proof fn lemma_rows(&self)
        requires
            self.wf(),
        ensures
            self@ == crate::table::rows_map(self.spec_rows()),
            crate::table::distinct_keys(self.spec_rows()),
    {
        lemma_ascending_distinct(self.rows@);
    }

    /// The empty map.
    pub fn new() -> (r: Self)
        ensures
            r.wf(),
            r@ == Map::<Seq<char>, V::V>::empty(),
            r.spec_rows().len() == 0,
    {
        SortedMap { rows: Vec::new() }
    }

    /// The number of entries.
    pub fn len(&self) -> (n: usize)
        ensures
            n == self.spec_rows().len(),
    {
        self.rows.len()
    }

    /// Whether there are no entries.
    pub fn is_empty(&self) -> (r: bool)
        ensures
            r == (self.spec_rows().len() == 0),
    {
        self.rows.len() == 0
    }

    /// The entry at a position of the order.
    pub fn row(&self, i: usize) -> (r: &Row<String, V>)
        requires
            i < self.spec_rows().len(),
        ensures
            *r == self.spec_rows()[i as int],
    {
        &self.rows[i]
    }

    /// The value under a key.
    pub fn get(&self, key: &str) -> (r: Option<&V>)
        requires
            self.wf(),
        ensures
            r is Some <==> self@.dom().contains(key@),
            r matches Some(v) ==> v@ == self@[key@],
    {
        proof {
            self.lemma_rows();
            crate::table::lemma_rows_map(self.rows@);
        }
        for i in 0..self.rows.len()
            invariant
                forall|j: int| 0 <= j < i ==> #[trigger] self.rows@[j].key@ != key@,
                self@ == crate::table::rows_map(self.rows@),
                forall|i: int|
                    0 <= i < self.rows@.len() ==> crate::table::rows_map(
                        self.rows@,
                    ).dom().contains(#[trigger] self.rows@[i].key@) && crate::table::rows_map(
                        self.rows@,
                    )[self.rows@[i].key@] == self.rows@[i].value@,
        {
            if same_text(self.rows[i].key.as_str(), key) {
                return Some(&self.rows[i].value);
            }
        }
        None
    }

    /// Whether there is an entry under a key.
    pub fn contains_key(&self, key: &str) -> (r: bool)
        requires
            self.wf(),
        ensures
            r == self@.dom().contains(key@),
    {
        self.get(key).is_some()
    }

    /// Enters a value under a key that is not there yet.
    pub fn insert(&mut self, key: String, value: V)
        requires
            old(self).wf(),
            !old(self)@.dom().contains(key@),
        ensures
            final(self).wf(),
            final(self)@ == old(self)@.insert(key@, value@),
            exists|i: int|
                0 <= i <= old(self).spec_rows().len() && final(self).spec_rows() == old(
                    self,
                ).spec_rows().insert(i, #[trigger] row_at(i, key, value)),
    {
        let ghost before = self.rows@;
        proof {
            self.lemma_rows();
            crate::table::lemma_rows_map(before);
        }
        let mut i: usize = 0;
        while i < self.rows.len() && is_text_less(self.rows[i].key.as_str(), key.as_str())
            invariant
                self.rows@ == before,
                i <= before.len(),
                forall|j: int| 0 <= j < i ==> text_less(#[trigger] before[j].key@, key@),
            decreases before.len() - i,
        {
            i = i + 1;
        }
        proof {
            assert forall|j: int| i <= j < before.len() implies text_less(
                key@,
                #[trigger] before[j].key@,
            ) by {
                assert(crate::table::rows_map(before).dom().contains(before[j].key@));
                assert(crate::table::rows_map(before).dom().contains(before[i as int].key@));
                lemma_less_total(before[i as int].key@, key@);
                if j > i {
                    lemma_less_transitive(key@, before[i as int].key@, before[j].key@);
                }
            }
        }
        self.rows.insert(i, Row { key, value });
        proof {
            let after = self.rows@;
            assert(after =~= before.insert(i as int, row_at(i as int, key, value)));
            assert forall|a: int, b: int| 0 <= a < b < after.len() implies text_less(
                #[trigger] after[a].key@,
                #[trigger] after[b].key@,
            ) by {
                let x = if a < i {
                    a
                } else {
                    a - 1
                };
                let y = if b < i {
                    b
                } else {
                    b - 1
                };
                if a == i {
                    assert(after[b] == before[y]);
                } else if b == i {
                    assert(after[a] == before[x]);
                } else {
                    assert(after[a] == before[x] && after[b] == before[y]);
                }
            }
            lemma_ascending_distinct(after);
            crate::table::lemma_rows_map(after);
            let l = crate::table::rows_map(after);
            let r = crate::table::rows_map(before).insert(key@, value@);
            assert forall|k: Seq<char>| l.dom().contains(k) == r.dom().contains(k) by {
                if l.dom().contains(k) {
                    let j = choose|j: int| 0 <= j < after.len() && #[trigger] after[j].key@ == k;
                    let x = if j < i {
                        j
                    } else {
                        j - 1
                    };
                    if j != i {
                        assert(after[j] == before[x]);
                        assert(before[x].key@ == k);
                    }
                }
                if r.dom().contains(k) {
                    if k == key@ {
                        assert(after[i as int].key@ == k);
                    } else {
                        let j = choose|j: int|
                            0 <= j < before.len() && #[trigger] before[j].key@ == k;
                        let x = if j < i {
                            j
                        } else {
                            j + 1
                        };
                        assert(after[x] == before[j]);
                        assert(after[x].key@ == k);
                    }
                }
            }
            assert forall|k: Seq<char>| l.dom().contains(k) implies l[k] == r[k] by {
                let j = choose|j: int| 0 <= j < after.len() && #[trigger] after[j].key@ == k;
                let x = if j < i {
                    j
                } else {
                    j - 1
                };
                if j != i {
                    assert(after[j] == before[x]);
                    assert(before[x].key@ == k);
                }
            }
            assert(l =~= r);
        }
    }
}

/// Texts are ordered by the first character in which they differ, and a text comes
/// before those that it begins.
pub proof fn law_order_of_texts(front: Seq<char>, a: Seq<char>, b: Seq<char>)
    ensures
        b.len() > 0 ==> text_less(front, front + b),
        a.len() > 0 && b.len() > 0 && (a[0] as int) < (b[0] as int) ==> text_less(
            front + a,
            front + b,
        ),
        a.len() > 0 && b.len() > 0 && (a[0] as int) > (b[0] as int) ==> !text_less(
            front + a,
            front + b,
        ),
    decreases front.len(),
{
    if front.len() > 0 {
        law_order_of_texts(front.skip(1), a, b);
        assert((front + a).skip(1) =~= front.skip(1) + a);
        assert((front + b).skip(1) =~= front.skip(1) + b);
    } else {
        assert(front + a =~= a);
        assert(front + b =~= b);
    }
}

} // verus!
