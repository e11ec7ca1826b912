//! Per-song phase offsets (milliseconds), keyed by a track's query key: the
//! metronome's nudges that line its beat grid up with one recording. A nudge
//! that brings an offset back to zero drops the entry, so the table only holds
//! real customizations.
use crate::text::same_text;
use vstd::prelude::*;

verus! {

/// The offsets of `entries`, as a map from key to offset (a later entry for
/// a key wins over an earlier one).
pub open spec fn entries_map(entries: Seq<(String, i64)>) -> Map<Seq<char>, i64>
    decreases entries.len(),
{
    if entries.len() == 0 {
        Map::empty()
    } else {
        let (k, v) = entries.last();
        entries_map(entries.drop_last()).insert(k@, v)
    }
}

/// No key occurs twice.
pub open spec fn keys_unique(entries: Seq<(String, i64)>) -> bool {
    forall|i: int, j: int|
        0 <= i < j < entries.len() ==> (#[trigger] entries[i]).0@ != (#[trigger] entries[j]).0@
}

/// The offset recorded for `key` in `m`; 0 when there is none.
pub open spec fn offset_in(m: Map<Seq<char>, i64>, key: Seq<char>) -> int {
    if m.dom().contains(key) {
        m[key] as int
    } else {
        0
    }
}

/// `m` after nudging `key`'s offset by `delta`: the entry is dropped when the
/// sum is zero.
pub open spec fn nudged(m: Map<Seq<char>, i64>, key: Seq<char>, delta: i64) -> Map<Seq<char>, i64> {
    let sum = offset_in(m, key) + delta;
    if sum == 0 {
        m.remove(key)
    } else {
        m.insert(key, sum as i64)
    }
}

/// Per-song offsets in milliseconds.
pub struct OffsetTable {
    entries: Vec<(String, i64)>,
}

proof fn lemma_entries_map_unique(entries: Seq<(String, i64)>)
    requires
        keys_unique(entries),
    ensures
        forall|i: int|
            0 <= i < entries.len() ==> entries_map(entries).dom().contains(#[trigger] entries[i].0@)
                && entries_map(entries)[entries[i].0@] == entries[i].1,
        forall|k: Seq<char>|
            entries_map(entries).dom().contains(k) ==> exists|i: int|
                0 <= i < entries.len() && (#[trigger] entries[i]).0@ == k,
    decreases entries.len(),
{
    if entries.len() > 0 {
        let p = entries.drop_last();
        assert(keys_unique(p)) by {
            assert forall|i: int, j: int| 0 <= i < j < p.len() implies (#[trigger] p[i]).0@ != (
            #[trigger] p[j]).0@ by {
                assert(p[i] == entries[i] && p[j] == entries[j]);
            }
        }
        lemma_entries_map_unique(p);
        let last = entries.last();
        assert forall|i: int| 0 <= i < entries.len() implies entries_map(entries).dom().contains(
            #[trigger] entries[i].0@,
        ) && entries_map(entries)[entries[i].0@] == entries[i].1 by {
            if i < entries.len() - 1 {
                assert(p[i] == entries[i]);
                assert(entries[i].0@ != entries[entries.len() - 1].0@);
            }
        }
        assert forall|k: Seq<char>| entries_map(entries).dom().contains(k) implies exists|i: int|
            0 <= i < entries.len() && (#[trigger] entries[i]).0@ == k by {
            if k != last.0@ {
                assert(entries_map(p).dom().contains(k));
                let i = choose|i: int| 0 <= i < p.len() && (#[trigger] p[i]).0@ == k;
                assert(entries[i] == p[i]);
            } else {
                assert(entries[entries.len() - 1].0@ == k);
            }
        }
    }
}

/// Position of `key` among `entries`, if it is there.
fn position(entries: &Vec<(String, i64)>, key: &str) -> (r: Option<usize>)
    ensures
        match r {
            Some(i) => i < entries.len() && entries@[i as int].0@ == key@,
            None => forall|i: int| 0 <= i < entries.len() ==> (#[trigger] entries@[i]).0@ != key@,
        },
{
    let mut i: usize = 0;
    while i < entries.len()
        invariant
            i <= entries.len(),
            forall|j: int| 0 <= j < i ==> (#[trigger] entries@[j]).0@ != key@,
        decreases entries.len() - i,
    {
        if same_text(entries[i].0.as_str(), key) {
            return Some(i);
        }
        i += 1;
    }
    None
}

impl OffsetTable {
    #[verifier::type_invariant]
    spec fn inv(self) -> bool {
        keys_unique(self.entries@)
    }

    /// The offsets by key.
    pub closed spec fn view(self) -> Map<Seq<char>, i64> {
        entries_map(self.entries@)
    }

    /// An empty table.
    pub fn new() -> (t: OffsetTable)
        ensures
            t.view() == Map::<Seq<char>, i64>::empty(),
    {
        OffsetTable { entries: Vec::new() }
    }

    /// The offset recorded for `key`; 0 when there is none.
    pub fn offset(&self, key: &str) -> (r: i64)
        ensures
            r == offset_in(self.view(), key@),
    {
        proof {
            use_type_invariant(self);
            lemma_entries_map_unique(self.entries@);
        }
        match position(&self.entries, key) {
            Some(i) => self.entries[i].1,
            None => 0,
        }
    }

    /// Sets `key`'s offset to `value` (adding the key if it is new).
    fn put(&mut self, key: String, value: i64)
        ensures
            final(self).view() == old(self).view().insert(key@, value),
    {
        proof {
            use_type_invariant(&*self);
            lemma_entries_map_unique(self.entries@);
        }
        let mut entries = Vec::new();
        std::mem::swap(&mut entries, &mut self.entries);
        let ghost before = entries@;
        match position(&entries, key.as_str()) {
            Some(i) => {
                entries.set(i, (key, value));
                proof {
                    assert(keys_unique(entries@)) by {
                        assert forall|a: int, b: int| 0 <= a < b < entries@.len() implies (
                        #[trigger] entries@[a]).0@ != (#[trigger] entries@[b]).0@ by {
                            if a != i && b != i {
                                assert(entries@[a] == before[a] && entries@[b] == before[b]);
                            } else if a == i {
                                assert(entries@[b] == before[b]);
                            } else {
                                assert(entries@[a] == before[a]);
                            }
                        }
                    }
                    lemma_entries_map_unique(entries@);
                    let m = entries_map(entries@);
                    let want = entries_map(before).insert(key@, value);
                    assert forall|k: Seq<char>| m.dom().contains(k) <==> want.dom().contains(k) by {
                        if m.dom().contains(k) {
                            let j = choose|j: int| 0 <= j < entries@.len() && (#[trigger] entries@[j]).0@ == k;
                            if j != i {
                                assert(entries@[j] == before[j]);
                            }
                        }
                        if want.dom().contains(k) && k != key@ {
                            let j = choose|j: int| 0 <= j < before.len() && (#[trigger] before[j]).0@ == k;
                            assert(entries@[j] == before[j]);
                        }
                        if k == key@ {
                            assert(entries@[i as int].0@ == k);
                        }
                    }
                    assert forall|k: Seq<char>| m.dom().contains(k) implies m[k] == want[k] by {
                        let j = choose|j: int| 0 <= j < entries@.len() && (#[trigger] entries@[j]).0@ == k;
                        if j != i {
                            assert(entries@[j] == before[j]);
                        }
                    }
                    assert(m =~= want);
                }
            },
            None => {
                entries.push((key, value));
                proof {
                    assert(entries@.drop_last() =~= before);
                    assert(keys_unique(entries@)) by {
                        assert forall|a: int, b: int| 0 <= a < b < entries@.len() implies (
                        #[trigger] entries@[a]).0@ != (#[trigger] entries@[b]).0@ by {
                            assert(entries@[a] == before[a]);
                            if b < before.len() {
                                assert(entries@[b] == before[b]);
                            }
                        }
                    }
                }
            },
        }
        self.entries = entries;
    }

    /// Drops `key`'s offset; returns whether there was one.
    pub fn clear(&mut self, key: &str) -> (removed: bool)
        ensures
            removed == old(self).view().dom().contains(key@),
            final(self).view() == old(self).view().remove(key@),
    {
        proof {
            use_type_invariant(&*self);
            lemma_entries_map_unique(self.entries@);
        }
        let mut entries = Vec::new();
        std::mem::swap(&mut entries, &mut self.entries);
        let ghost before = entries@;
        match position(&entries, key) {
            Some(i) => {
                entries.remove(i);
                proof {
                    assert(keys_unique(entries@)) by {
                        assert forall|a: int, b: int| 0 <= a < b < entries@.len() implies (
                        #[trigger] entries@[a]).0@ != (#[trigger] entries@[b]).0@ by {
                            let a0 = if a < i { a } else { a + 1 };
                            let b0 = if b < i { b } else { b + 1 };
                            assert(entries@[a] == before[a0] && entries@[b] == before[b0]);
                        }
                    }
                    lemma_entries_map_unique(entries@);
                    let m = entries_map(entries@);
                    let want = entries_map(before).remove(key@);
                    assert forall|k: Seq<char>| m.dom().contains(k) <==> want.dom().contains(k) by {
                        if m.dom().contains(k) {
                            let j = choose|j: int| 0 <= j < entries@.len() && (#[trigger] entries@[j]).0@ == k;
                            let j0 = if j < i { j } else { j + 1 };
                            assert(entries@[j] == before[j0]);
                        }
                        if want.dom().contains(k) {
                            let j = choose|j: int| 0 <= j < before.len() && (#[trigger] before[j]).0@ == k;
                            assert(j != i);
                            let j1 = if j < i { j } else { j - 1 };
                            assert(entries@[j1] == before[j]);
                        }
                    }
                    assert forall|k: Seq<char>| m.dom().contains(k) implies m[k] == want[k] by {
                        let j = choose|j: int| 0 <= j < entries@.len() && (#[trigger] entries@[j]).0@ == k;
                        let j0 = if j < i { j } else { j + 1 };
                        assert(entries@[j] == before[j0]);
                    }
                    assert(m =~= want);
                }
                self.entries = entries;
                true
            },
            None => {
                proof {
                    assert(!entries_map(before).dom().contains(key@)) by {
                        if entries_map(before).dom().contains(key@) {
                            let j = choose|j: int| 0 <= j < before.len() && (#[trigger] before[j]).0@ == key@;
                        }
                    }
                    assert(entries_map(before).remove(key@) =~= entries_map(before));
                }
                self.entries = entries;
                false
            },
        }
    }

    /// Nudges `key`'s offset by `delta` milliseconds; an offset that comes back
    /// to zero is dropped.
    pub fn nudge(&mut self, key: String, delta: i64)
        requires
            i64::MIN <= offset_in(old(self).view(), key@) + delta <= i64::MAX,
        ensures
            final(self).view() == nudged(old(self).view(), key@, delta),
    {
        let current = self.offset(key.as_str());
        let sum = current + delta;
        if sum == 0 {
            self.clear(key.as_str());
        } else {
            self.put(key, sum);
        }
    }

    /// Builds a table from `(key, offset)` pairs, a later pair for a key
    /// winning over an earlier one.
    pub fn from_pairs(pairs: Vec<(String, i64)>) -> (t: OffsetTable)
        ensures
            t.view() == entries_map(pairs@),
    {
        let mut t = OffsetTable::new();
        let mut k: usize = 0;
        while k < pairs.len()
            invariant
                k <= pairs.len(),
                t.view() == entries_map(pairs@.take(k as int)),
            decreases pairs.len() - k,
        {
            let (key, value) = &pairs[k];
            t.put(key.clone(), *value);
            proof {
                assert(pairs@.take(k + 1).drop_last() =~= pairs@.take(k as int));
            }
            k += 1;
        }
        assert(pairs@.take(pairs.len() as int) =~= pairs@);
        t
    }

    /// The table's `(key, offset)` pairs, each key once.
    pub fn to_pairs(&self) -> (r: Vec<(String, i64)>)
        ensures
            keys_unique(r@),
            entries_map(r@) == self.view(),
    {
        proof {
            use_type_invariant(self);
        }
        let mut r: Vec<(String, i64)> = Vec::new();
        let mut k: usize = 0;
        while k < self.entries.len()
            invariant
                k <= self.entries.len(),
                r.len() == k,
                forall|i: int| 0 <= i < k ==> (#[trigger] r@[i]).0@ == self.entries@[i].0@ && r@[i].1 == self.entries@[i].1,
            decreases self.entries.len() - k,
        {
            let (key, value) = &self.entries[k];
            r.push((key.clone(), *value));
            k += 1;
        }
        proof {
            lemma_same_map(r@, self.entries@);
        }
        r
    }
}

proof fn lemma_same_map(a: Seq<(String, i64)>, b: Seq<(String, i64)>)
    requires
        a.len() == b.len(),
        forall|i: int| 0 <= i < a.len() ==> (#[trigger] a[i]).0@ == b[i].0@ && a[i].1 == b[i].1,
        keys_unique(b),
    ensures
        keys_unique(a),
        entries_map(a) == entries_map(b),
    decreases a.len(),
{
    assert forall|i: int, j: int| 0 <= i < j < a.len() implies (#[trigger] a[i]).0@ != (
    #[trigger] a[j]).0@ by {
        assert(b[i].0@ != b[j].0@);
    }
    if a.len() > 0 {
        let pa = a.drop_last();
        let pb = b.drop_last();
        assert forall|i: int| 0 <= i < pa.len() implies (#[trigger] pa[i]).0@ == pb[i].0@ && pa[i].1
            == pb[i].1 by {
            assert(pa[i] == a[i] && pb[i] == b[i]);
        }
        assert(keys_unique(pb)) by {
            assert forall|i: int, j: int| 0 <= i < j < pb.len() implies (#[trigger] pb[i]).0@ != (
            #[trigger] pb[j]).0@ by {
                assert(pb[i] == b[i] && pb[j] == b[j]);
            }
        }
        lemma_same_map(pa, pb);
        assert(a.last().0@ == b.last().0@);
    }
}

/// Nudging an offset by `delta` and then by `-delta` gives the table back.
pub proof fn lemma_nudge_undone(m: Map<Seq<char>, i64>, key: Seq<char>, delta: i64)
    requires
        i64::MIN <= offset_in(m, key) + delta <= i64::MAX,
        delta != i64::MIN,
        m.dom().contains(key) ==> m[key] != 0,
    ensures
        nudged(nudged(m, key, delta), key, (-delta) as i64) == m,
{
    let once = nudged(m, key, delta);
    assert(offset_in(once, key) == offset_in(m, key) + delta);
    if m.dom().contains(key) {
        assert(nudged(once, key, (-delta) as i64) =~= m);
    } else {
        assert(nudged(once, key, (-delta) as i64) =~= m);
    }
}

/// A nudge never leaves a zero offset behind: the nudged key is either gone
/// or holds a non-zero offset.
pub proof fn lemma_no_zero_after_nudge(m: Map<Seq<char>, i64>, key: Seq<char>, delta: i64)
    requires
        i64::MIN <= offset_in(m, key) + delta <= i64::MAX,
    ensures
        nudged(m, key, delta).dom().contains(key) ==> nudged(m, key, delta)[key] != 0,
        offset_in(nudged(m, key, delta), key) == offset_in(m, key) + delta,
{
}

} // verus!
