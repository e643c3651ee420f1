//! Whether totals have changed.

use super::{AgentStats, BucketStats, UsageSnapshot};
use crate::sorted::SortedMap;
use crate::text::same_text;
use vstd::prelude::*;

verus! {

proof fn lemma_within_both_ways<K, V>(a: Map<K, V>, b: Map<K, V>)
    requires
        a.submap_of(b),
        b.submap_of(a),
    ensures
        a == b,
{
    assert forall|k: K| a.dom().contains(k) == b.dom().contains(k) by {
        if a.dom().contains(k) {
            assert(b.dom().contains(k));
        }
        if b.dom().contains(k) {
            assert(a.dom().contains(k));
        }
    }
    assert forall|k: K| a.dom().contains(k) implies a[k] == b[k] by {
        assert(b.dom().contains(k) && a[k] == b[k]);
    }
    assert(a =~= b);
}

impl BucketStats {
    /// Whether two buckets are the same, with the same totals.
    fn same(&self, other: &BucketStats) -> (r: bool)
        ensures
            r == (self@ == other@),
    {
        same_text(self.provider.as_str(), other.provider.as_str()) && same_text(
            self.model.as_str(),
            other.model.as_str(),
        ) && same_text(self.effort.as_str(), other.effort.as_str()) && self.stats == other.stats
    }
}

/// Whether each bucket of one agent is there for the other, with the same
/// totals.
fn buckets_within(a: &SortedMap<BucketStats>, b: &SortedMap<BucketStats>) -> (r: bool)
    requires
        a.wf(),
        b.wf(),
    ensures
        r == a@.submap_of(b@),
{
    proof {
        a.lemma_rows();
        crate::table::lemma_rows_map(a.spec_rows());
    }
    let ghost rows = a.spec_rows();
    let count: usize = a.len();
    for i in 0..count
        invariant
            count == rows.len(),
            rows == a.spec_rows(),
            b.wf(),
            a@ == crate::table::rows_map(rows),
            forall|j: int|
                0 <= j < rows.len() ==> crate::table::rows_map(rows).dom().contains(
                    #[trigger] rows[j].key@,
                ) && crate::table::rows_map(rows)[rows[j].key@] == rows[j].value@,
            forall|j: int|
                0 <= j < i ==> b@.dom().contains(#[trigger] rows[j].key@) && b@[rows[j].key@]
                    == rows[j].value@,
    {
        let row = a.row(i);
        assert(a@.dom().contains(rows[i as int].key@));
        match b.get(row.key.as_str()) {
            Some(v) => {
                if !row.value.same(v) {
                    return false;
                }
            },
            None => {
                return false;
            },
        }
    }
    proof {
        assert forall|k: Seq<char>| a@.dom().contains(k) implies b@.dom().contains(k) && a@[k]
            == b@[k] by {
            let j = choose|j: int| 0 <= j < rows.len() && #[trigger] rows[j].key@ == k;
            assert(b@.dom().contains(rows[j].key@));
        }
    }
    true
}

impl AgentStats {
    /// Whether two agents have the same totals.
    fn same(&self, other: &AgentStats) -> (r: bool)
        requires
            self.buckets.wf(),
            other.buckets.wf(),
        ensures
            r == (self@ == other@),
    {
        let r = self.total == other.total && buckets_within(&self.buckets, &other.buckets)
            && buckets_within(&other.buckets, &self.buckets);
        proof {
            if r {
                lemma_within_both_ways(self.buckets@, other.buckets@);
            }
            if self@ == other@ {
                assert(self.buckets@ == self@.buckets);
                assert(other.buckets@ == other@.buckets);
            }
        }
        r
    }
}

/// Whether each agent of one snapshot is in the other, with the same totals.
fn agents_within(a: &UsageSnapshot, b: &UsageSnapshot) -> (r: bool)
    requires
        a.wf(),
        b.wf(),
    ensures
        r == a.agents@.submap_of(b.agents@),
{
    proof {
        a.agents.lemma_rows();
        crate::table::lemma_rows_map(a.agents.spec_rows());
    }
    let ghost rows = a.agents.spec_rows();
    let ghost m = a.agents@;
    let count: usize = a.agents.len();
    for i in 0..count
        invariant
            count == rows.len(),
            rows == a.agents.spec_rows(),
            a.wf(),
            b.wf(),
            m == a.agents@,
            forall|j: int|
                0 <= j < rows.len() ==> m.dom().contains(#[trigger] rows[j].key@)
                    && m[rows[j].key@] == rows[j].value@,
            forall|j: int|
                0 <= j < i ==> b.agents@.dom().contains(#[trigger] rows[j].key@)
                    && b.agents@[rows[j].key@] == rows[j].value@,
    {
        let row = a.agents.row(i);
        assert(m.dom().contains(rows[i as int].key@));
        match b.find_agent(row.key.as_str()) {
            Some(at) => {
                if !row.value.same(&b.agents.row(at).value) {
                    return false;
                }
            },
            None => {
                return false;
            },
        }
    }
    proof {
        assert forall|k: Seq<char>| m.dom().contains(k) implies b.agents@.dom().contains(k) && m[k]
            == b.agents@[k] by {
            let j = choose|j: int| 0 <= j < rows.len() && #[trigger] rows[j].key@ == k;
            assert(b.agents@.dom().contains(rows[j].key@));
        }
    }
    true
}

impl UsageSnapshot {
    /// Where an agent stands.
    fn find_agent(&self, name: &str) -> (r: Option<usize>)
        requires
            self.wf(),
        ensures
            match r {
                Some(i) => i < self.agents.spec_rows().len() && self.agents.spec_rows()[i as int].key@
                    == name@ && self.agents@.dom().contains(name@) && self.agents@[name@]
                    == self.agents.spec_rows()[i as int].value@,
                None => !self.agents@.dom().contains(name@),
            },
    {
        proof {
            self.agents.lemma_rows();
            crate::table::lemma_rows_map(self.agents.spec_rows());
        }
        let ghost rows = self.agents.spec_rows();
        let ghost m = self.agents@;
        let count: usize = self.agents.len();
        for i in 0..count
            invariant
                count == rows.len(),
                rows == self.agents.spec_rows(),
                m == self.agents@,
                forall|j: int|
                    0 <= j < rows.len() ==> m.dom().contains(#[trigger] rows[j].key@)
                        && m[rows[j].key@] == rows[j].value@,
                forall|j: int| 0 <= j < i ==> #[trigger] rows[j].key@ != name@,
        {
            assert(m.dom().contains(rows[i as int].key@));
            if same_text(self.agents.row(i).key.as_str(), name) {
                return Some(i);
            }
        }
        None
    }

    /// Whether two snapshots hold the same totals.
    pub fn same_totals(&self, other: &UsageSnapshot) -> (r: bool)
        requires
            self.wf(),
            other.wf(),
        ensures
            r == (self.agents@ == other.agents@),
    {
        let r = agents_within(self, other) && agents_within(other, self);
        proof {
            if r {
                lemma_within_both_ways(self.agents@, other.agents@);
            }
        }
        r
    }
}

} // verus!
