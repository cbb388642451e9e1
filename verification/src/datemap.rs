//! A sparse date-keyed map stored as a vector of unique-key pairs, viewed as
//! a `Map<Date, V>`. Habit stats (date -> recorded value) live in one of
//! these; the archiver filters them month by month.

use vstd::prelude::*;

use crate::date::Date;

verus! {

/// No two pairs share a date.
pub open spec fn spec_keys_unique<V>(s: Seq<(Date, V)>) -> bool {
    forall|i: int, j: int| 0 <= i < j < s.len() ==> (#[trigger] s[i]).0 != (#[trigger] s[j]).0
}

/// Some pair carries the date `d`.
pub open spec fn spec_seq_contains_key<V>(s: Seq<(Date, V)>, d: Date) -> bool {
    exists|i: int| 0 <= i < s.len() && (#[trigger] s[i]).0 == d
}

/// The position of the pair carrying `d`.
pub open spec fn spec_index_of<V>(s: Seq<(Date, V)>, d: Date) -> int {
    choose|i: int| 0 <= i < s.len() && (#[trigger] s[i]).0 == d
}

/// The pair sequence read as a map.
pub open spec fn spec_as_map<V>(s: Seq<(Date, V)>) -> Map<Date, V> {
    Map::new(|d: Date| spec_seq_contains_key(s, d), |d: Date| s[spec_index_of(s, d)].1)
}

/// All dates of one calendar month.
pub open spec fn spec_month_keys(y: u32, m: u32) -> Set<Date> {
    Set::new(|d: Date| d.year == y && d.month == m)
}

/// The entries of `mp` that fall in month (`y`, `m`).
pub open spec fn spec_month_restrict<V>(mp: Map<Date, V>, y: u32, m: u32) -> Map<Date, V> {
    mp.restrict(spec_month_keys(y, m))
}

/// Some key of `mp` falls in month (`y`, `m`).
pub open spec fn spec_map_has_month<V>(mp: Map<Date, V>, y: u32, m: u32) -> bool {
    exists|d: Date| #[trigger] mp.dom().contains(d) && d.year == y && d.month == m
}

proof fn lemma_index_of_unique<V>(s: Seq<(Date, V)>, d: Date, i: int)
    requires
        spec_keys_unique(s),
        0 <= i < s.len(),
        s[i].0 == d,
    ensures
        spec_index_of(s, d) == i,
{
    assert(spec_seq_contains_key(s, d));
    let j = spec_index_of(s, d);
    assert(0 <= j < s.len() && s[j].0 == d);
    if i < j {
        assert(s[i].0 != s[j].0);
    } else if j < i {
        assert(s[j].0 != s[i].0);
    }
}

proof fn lemma_as_map_push<V>(s: Seq<(Date, V)>, d: Date, v: V)
    requires
        spec_keys_unique(s),
        !spec_seq_contains_key(s, d),
    ensures
        spec_keys_unique(s.push((d, v))),
        spec_as_map(s.push((d, v))) == spec_as_map(s).insert(d, v),
{
    let t = s.push((d, v));
    assert forall|i: int, j: int| 0 <= i < j < t.len() implies (#[trigger] t[i]).0 != (
    #[trigger] t[j]).0 by {
        if j < s.len() {
            assert(s[i].0 != s[j].0);
        } else {
            assert(t[j].0 == d);
            assert(t[i] == s[i]);
            assert(spec_seq_contains_key(s, s[i].0));
        }
    }
    assert forall|k: Date| true implies #[trigger] spec_as_map(t).contains_key(k)
        == spec_as_map(s).insert(d, v).contains_key(k) by {
        if spec_seq_contains_key(t, k) {
            let i = choose|i: int| 0 <= i < t.len() && (#[trigger] t[i]).0 == k;
            if i < s.len() {
                assert(s[i].0 == k);
                assert(spec_seq_contains_key(s, k));
            } else {
                assert(k == d);
            }
        }
        if spec_seq_contains_key(s, k) {
            let i = choose|i: int| 0 <= i < s.len() && (#[trigger] s[i]).0 == k;
            assert(t[i].0 == k);
            assert(spec_seq_contains_key(t, k));
        }
        if k == d {
            assert(t[s.len() as int].0 == d);
            assert(spec_seq_contains_key(t, d));
        }
    }
    assert forall|k: Date| spec_as_map(t).contains_key(k) implies #[trigger] spec_as_map(t)[k]
        == spec_as_map(s).insert(d, v)[k] by {
        if k == d {
            lemma_index_of_unique(t, d, s.len() as int);
        } else {
            let i = choose|i: int| 0 <= i < s.len() && (#[trigger] s[i]).0 == k;
            assert(t[i].0 == k);
            lemma_index_of_unique(t, k, i);
            lemma_index_of_unique(s, k, i);
        }
    }
    assert(spec_as_map(t) =~= spec_as_map(s).insert(d, v));
}

proof fn lemma_as_map_remove_at<V>(s: Seq<(Date, V)>, i: int)
    requires
        spec_keys_unique(s),
        0 <= i < s.len(),
    ensures
        spec_keys_unique(s.remove(i)),
        spec_as_map(s.remove(i)) == spec_as_map(s).remove(s[i].0),
{
    let d = s[i].0;
    let t = s.remove(i);
    assert forall|p: int, q: int| 0 <= p < q < t.len() implies (#[trigger] t[p]).0 != (
    #[trigger] t[q]).0 by {
        let p0: int = if p < i {
            p
        } else {
            p + 1
        };
        let q0: int = if q < i {
            q
        } else {
            q + 1
        };
        assert(t[p] == s[p0]);
        assert(t[q] == s[q0]);
        assert(s[p0].0 != s[q0].0);
    }
    assert forall|k: Date| true implies #[trigger] spec_as_map(t).contains_key(k)
        == spec_as_map(s).remove(d).contains_key(k) by {
        if spec_seq_contains_key(t, k) {
            let p = choose|p: int| 0 <= p < t.len() && (#[trigger] t[p]).0 == k;
            let p0: int = if p < i {
                p
            } else {
                p + 1
            };
            assert(t[p] == s[p0]);
            assert(spec_seq_contains_key(s, k));
            if k == d {
                assert(s[p0].0 == s[i].0);
                assert(p0 != i ==> false);
            }
        }
        if spec_seq_contains_key(s, k) && k != d {
            let p0 = choose|p0: int| 0 <= p0 < s.len() && (#[trigger] s[p0]).0 == k;
            assert(p0 != i);
            let p: int = if p0 < i {
                p0
            } else {
                p0 - 1
            };
            assert(t[p] == s[p0]);
            assert(spec_seq_contains_key(t, k));
        }
    }
    assert forall|k: Date| spec_as_map(t).contains_key(k) implies #[trigger] spec_as_map(t)[k]
        == spec_as_map(s).remove(d)[k] by {
        let p = choose|p: int| 0 <= p < t.len() && (#[trigger] t[p]).0 == k;
        let p0: int = if p < i {
            p
        } else {
            p + 1
        };
        assert(t[p] == s[p0]);
        lemma_index_of_unique(t, k, p);
        lemma_index_of_unique(s, k, p0);
    }
    assert(spec_as_map(t) =~= spec_as_map(s).remove(d));
}

/// A mapping from calendar dates to recorded values; at most one value per
/// date, every date a real one.
pub struct DateMap<V> {
    entries: Vec<(Date, V)>,
}

impl<V: Copy> DateMap<V> {
    /// Keys are pairwise distinct and name real calendar days.
    pub closed spec fn wf(self) -> bool {
        spec_keys_unique(self.entries@) && forall|i: int|
            0 <= i < self.entries@.len() ==> (#[trigger] self.entries@[i]).0.spec_valid()
    }

    pub closed spec fn view(self) -> Map<Date, V> {
        spec_as_map(self.entries@)
    }

    /// The number of recorded dates.
    pub closed spec fn spec_len(self) -> nat {
        self.entries@.len()
    }

    pub fn new() -> (r: DateMap<V>)
        ensures
            r.wf(),
            r@ == Map::<Date, V>::empty(),
            r.spec_len() == 0,
    {
        let r = DateMap { entries: Vec::new() };
        proof {
            assert(r@ =~= Map::<Date, V>::empty());
        }
        r
    }

    pub fn len(&self) -> (r: usize)
        ensures
            r == self.spec_len(),
    {
        self.entries.len()
    }

    /// Position of `d` among the entries, if recorded.
    fn find(&self, d: Date) -> (r: Option<usize>)
        requires
            self.wf(),
        ensures
            match r {
                Some(i) => i < self.entries@.len() && self.entries@[i as int].0 == d,
                None => !spec_seq_contains_key(self.entries@, d),
            },
    {
        let mut i: usize = 0;
        while i < self.entries.len()
            invariant
                i <= self.entries@.len(),
                forall|k: int| 0 <= k < i ==> (#[trigger] self.entries@[k]).0 != d,
            decreases self.entries@.len() - i,
        {
            let e = self.entries[i].0;
            if e.year == d.year && e.month == d.month && e.day == d.day {
                return Some(i);
            }
            i = i + 1;
        }
        None
    }

    pub fn get(&self, d: Date) -> (r: Option<V>)
        requires
            self.wf(),
        ensures
            match r {
                Some(v) => self@.contains_key(d) && self@[d] == v,
                None => !self@.contains_key(d),
            },
    {
        match self.find(d) {
            Some(i) => {
                proof {
                    lemma_index_of_unique(self.entries@, d, i as int);
                }
                Some(self.entries[i].1)
            },
            None => None,
        }
    }

    /// Records `v` for `d`, replacing any earlier value.
    pub fn insert(&mut self, d: Date, v: V)
        requires
            old(self).wf(),
            d.spec_valid(),
        ensures
            final(self).wf(),
            final(self)@ == old(self)@.insert(d, v),
    {
        let found = self.find(d);
        match found {
            Some(i) => {
                proof {
                    lemma_as_map_remove_at(self.entries@, i as int);
                }
                self.entries.remove(i);
                proof {
                    lemma_as_map_push(self.entries@, d, v);
                }
                self.entries.push((d, v));
                proof {
                    assert(old(self)@.remove(d).insert(d, v) =~= old(self)@.insert(d, v));
                }
            },
            None => {
                proof {
                    lemma_as_map_push(self.entries@, d, v);
                }
                self.entries.push((d, v));
            },
        }
    }

    /// Drops the entry for `d`, if any.
    pub fn remove(&mut self, d: Date)
        requires
            old(self).wf(),
        ensures
            final(self).wf(),
            final(self)@ == old(self)@.remove(d),
    {
        let found = self.find(d);
        match found {
            Some(i) => {
                proof {
                    lemma_as_map_remove_at(self.entries@, i as int);
                }
                self.entries.remove(i);
            },
            None => {
                proof {
                    assert(!self@.contains_key(d));
                    assert(self@.remove(d) =~= self@);
                }
            },
        }
    }

    /// All recorded dates, in storage order, each exactly once.
    pub fn dates(&self) -> (r: Vec<Date>)
        requires
            self.wf(),
        ensures
            r@.len() == self.spec_len(),
            forall|i: int|
                0 <= i < r@.len() ==> (#[trigger] r@[i]).spec_valid() && self@.contains_key(
                    r@[i],
                ),
            forall|i: int, j: int| 0 <= i < j < r@.len() ==> r@[i] != r@[j],
            forall|d: Date| self@.contains_key(d) ==> r@.contains(d),
    {
        let mut r: Vec<Date> = Vec::new();
        let mut i: usize = 0;
        while i < self.entries.len()
            invariant
                self.wf(),
                i <= self.entries@.len(),
                r@.len() == i,
                forall|k: int| 0 <= k < i ==> r@[k] == (#[trigger] self.entries@[k]).0,
            decreases self.entries@.len() - i,
        {
            r.push(self.entries[i].0);
            i = i + 1;
        }
        proof {
            assert forall|d: Date| self@.contains_key(d) implies r@.contains(d) by {
                let k = choose|k: int|
                    0 <= k < self.entries@.len() && (#[trigger] self.entries@[k]).0 == d;
                assert(r@[k] == d);
            }
            assert forall|i2: int, j2: int| 0 <= i2 < j2 < r@.len() implies r@[i2] != r@[j2] by {
                assert(self.entries@[i2].0 != self.entries@[j2].0);
            }
            assert forall|i2: int| 0 <= i2 < r@.len() implies (#[trigger] r@[i2]).spec_valid()
                && self@.contains_key(r@[i2]) by {
                assert(self.entries@[i2].0.spec_valid());
                assert(spec_seq_contains_key(self.entries@, r@[i2]));
            }
        }
        r
    }

    /// True when some recorded date falls in month (`y`, `m`).
    pub fn has_month(&self, y: u32, m: u32) -> (r: bool)
        requires
            self.wf(),
        ensures
            r == spec_map_has_month(self@, y, m),
    {
        let mut i: usize = 0;
        while i < self.entries.len()
            invariant
                self.wf(),
                i <= self.entries@.len(),
                forall|k: int|
                    0 <= k < i ==> !((#[trigger] self.entries@[k]).0.year == y
                        && self.entries@[k].0.month == m),
            decreases self.entries@.len() - i,
        {
            let d = self.entries[i].0;
            if d.year == y && d.month == m {
                proof {
                    assert(spec_seq_contains_key(self.entries@, d));
                    assert(self@.dom().contains(d));
                }
                return true;
            }
            i = i + 1;
        }
        proof {
            if spec_map_has_month(self@, y, m) {
                let d = choose|d: Date|
                    #[trigger] self@.dom().contains(d) && d.year == y && d.month == m;
                let k = choose|k: int|
                    0 <= k < self.entries@.len() && (#[trigger] self.entries@[k]).0 == d;
                assert(!(self.entries@[k].0.year == y && self.entries@[k].0.month == m));
            }
        }
        false
    }

    /// The entries of month (`y`, `m`) alone, as a map of their own.
    pub fn filter_month(&self, y: u32, m: u32) -> (r: DateMap<V>)
        requires
            self.wf(),
        ensures
            r.wf(),
            r@ == spec_month_restrict(self@, y, m),
    {
        let s = Ghost(self.entries@);
        let mut r: Vec<(Date, V)> = Vec::new();
        let mut i: usize = 0;
        proof {
            assert(spec_as_map(r@) =~= spec_month_restrict(spec_as_map(s@.take(0)), y, m));
        }
        while i < self.entries.len()
            invariant
                self.wf(),
                s@ == self.entries@,
                i <= s@.len(),
                spec_keys_unique(r@),
                forall|k: int|
                    0 <= k < r@.len() ==> (#[trigger] r@[k]).0.spec_valid(),
                forall|k: int|
                    0 <= k < r@.len() ==> spec_seq_contains_key(s@.take(i as int), (
                    #[trigger] r@[k]).0),
                spec_as_map(r@) == spec_month_restrict(spec_as_map(s@.take(i as int)), y, m),
            decreases s@.len() - i,
        {
            let ghost prefix = s@.take(i as int);
            let ghost prefix2 = s@.take(i as int + 1);
            let (d, v) = self.entries[i];
            proof {
                assert(prefix2 =~= prefix.push(s@[i as int]));
                assert(!spec_seq_contains_key(prefix, d)) by {
                    if spec_seq_contains_key(prefix, d) {
                        let k = choose|k: int|
                            0 <= k < prefix.len() && (#[trigger] prefix[k]).0 == d;
                        assert(s@[k].0 == s@[i as int].0);
                    }
                }
                lemma_as_map_push(prefix, d, v);
                if d.year == y && d.month == m {
                    assert(!spec_seq_contains_key(r@, d)) by {
                        if spec_seq_contains_key(r@, d) {
                            let k = choose|k: int|
                                0 <= k < r@.len() && (#[trigger] r@[k]).0 == d;
                            assert(spec_seq_contains_key(prefix, d));
                        }
                    }
                    lemma_as_map_push(r@, d, v);
                    assert(spec_month_restrict(spec_as_map(prefix).insert(d, v), y, m)
                        =~= spec_month_restrict(spec_as_map(prefix), y, m).insert(d, v));
                } else {
                    assert(spec_month_restrict(spec_as_map(prefix).insert(d, v), y, m)
                        =~= spec_month_restrict(spec_as_map(prefix), y, m));
                }
            }
            if d.year == y && d.month == m {
                r.push((d, v));
                proof {
                    assert forall|k: int| 0 <= k < r@.len() implies spec_seq_contains_key(
                        prefix2,
                        (#[trigger] r@[k]).0,
                    ) by {
                        if k < r@.len() - 1 {
                            let k0 = choose|k0: int|
                                0 <= k0 < prefix.len() && (#[trigger] prefix[k0]).0 == r@[k].0;
                            assert(prefix2[k0].0 == r@[k].0);
                        } else {
                            assert(prefix2[i as int].0 == d);
                        }
                    }
                }
            } else {
                proof {
                    assert forall|k: int| 0 <= k < r@.len() implies spec_seq_contains_key(
                        prefix2,
                        (#[trigger] r@[k]).0,
                    ) by {
                        let k0 = choose|k0: int|
                            0 <= k0 < prefix.len() && (#[trigger] prefix[k0]).0 == r@[k].0;
                        assert(prefix2[k0].0 == r@[k].0);
                    }
                }
            }
            i = i + 1;
        }
        proof {
            assert(s@.take(s@.len() as int) =~= s@);
        }
        DateMap { entries: r }
    }
}

} // verus!
