//! The monthly archival partition: splitting every habit's dated entries by
//! calendar month, keeping only the current month live and handing every
//! other month out as a named bucket. All of it is pure computation; writing
//! the buckets to disk is the caller's business.

use vstd::prelude::*;
use vstd::string::*;

use crate::date::{Date, month_lower, spec_month_lower};
use crate::datemap::spec_month_restrict;
use crate::strnum::{spec_decimal, u32_string};
use crate::variant::HabitVariant;

verus! {

/// `live` is exactly the habits of `hs` that have an entry in month
/// (`y`, `m`), in order, each cut down to that month's entries.
pub open spec fn spec_live_matches(
    live: Seq<HabitVariant>,
    hs: Seq<HabitVariant>,
    y: u32,
    m: u32,
) -> bool
    decreases hs.len(),
{
    if hs.len() == 0 {
        live.len() == 0
    } else {
        let h = hs.last();
        if h.spec_has_month(y, m) {
            live.len() > 0 && HabitVariant::spec_is_month_part(live.last(), h, y, m)
                && spec_live_matches(live.drop_last(), hs.drop_last(), y, m)
        } else {
            spec_live_matches(live, hs.drop_last(), y, m)
        }
    }
}

/// Some habit of `hs` has an entry in month (`y`, `m`).
pub open spec fn spec_any_has_month(hs: Seq<HabitVariant>, y: u32, m: u32) -> bool {
    exists|i: int| 0 <= i < hs.len() && (#[trigger] hs[i]).spec_has_month(y, m)
}

/// Some habit of the first `upto` of `hs` has an entry in month (`y`, `m`).
pub open spec fn spec_any_has_month_upto(hs: Seq<HabitVariant>, upto: int, y: u32, m: u32) -> bool {
    exists|i: int| 0 <= i < upto && (#[trigger] hs[i]).spec_has_month(y, m)
}

/// The deterministic bucket file name: lower-cased three-letter month
/// abbreviation, an underscore, the year in decimal, and ".json".
pub open spec fn spec_bucket_filename(y: u32, m: u32) -> Seq<char> {
    spec_month_lower(m) + "_"@ + spec_decimal(y as nat) + ".json"@
}

/// One month's worth of archived habit copies.
pub struct MonthBucket {
    pub year: u32,
    pub month: u32,
    pub filename: String,
    pub habits: Vec<HabitVariant>,
}

/// What one archive run decides: the buckets to write out, and the habits
/// that stay live.
pub struct ArchivePlan {
    pub buckets: Vec<MonthBucket>,
    pub live: Vec<HabitVariant>,
}

/// Renders the bucket file name for month (`y`, `m`).
pub fn bucket_filename(y: u32, m: u32) -> (r: String)
    requires
        1 <= m <= 12,
    ensures
        r@ == spec_bucket_filename(y, m),
{
    let mut s = month_lower(m);
    s.append("_");
    s.append(u32_string(y).as_str());
    s.append(".json");
    proof {
        reveal_strlit("_");
        reveal_strlit(".json");
        assert(s@ =~= spec_bucket_filename(y, m));
    }
    s
}

/// The habits of `habits` that have an entry in month (`y`, `m`), in order,
/// each cut down to that month's entries.
fn collect_filtered(habits: &Vec<HabitVariant>, y: u32, m: u32) -> (r: Vec<HabitVariant>)
    requires
        forall|i: int| 0 <= i < habits@.len() ==> (#[trigger] habits@[i]).wf(),
    ensures
        forall|i: int| 0 <= i < r@.len() ==> (#[trigger] r@[i]).wf(),
        spec_live_matches(r@, habits@, y, m),
{
    let mut r: Vec<HabitVariant> = Vec::new();
    let mut i: usize = 0;
    proof {
        assert(habits@.take(0) =~= Seq::<HabitVariant>::empty());
    }
    while i < habits.len()
        invariant
            forall|k: int| 0 <= k < habits@.len() ==> (#[trigger] habits@[k]).wf(),
            i <= habits@.len(),
            forall|k: int| 0 <= k < r@.len() ==> (#[trigger] r@[k]).wf(),
            spec_live_matches(r@, habits@.take(i as int), y, m),
        decreases habits@.len() - i,
    {
        let ghost prefix = habits@.take(i as int);
        let ghost prefix2 = habits@.take(i as int + 1);
        proof {
            assert(prefix2.drop_last() =~= prefix);
            assert(prefix2.last() == habits@[i as int]);
        }
        if habits[i].has_month(y, m) {
            let part = habits[i].filtered_to_month(y, m);
            let ghost old_r = r@;
            r.push(part);
            proof {
                assert(r@.drop_last() =~= old_r);
                assert(r@.last() == part);
            }
        }
        i = i + 1;
    }
    proof {
        assert(habits@.take(habits@.len() as int) =~= habits@);
    }
    r
}

/// True iff (`y`, `m`) is among `months`.
fn contains_pair(months: &Vec<(u32, u32)>, y: u32, m: u32) -> (r: bool)
    ensures
        r == exists|k: int| 0 <= k < months@.len() && months@[k] == (y, m),
{
    let mut k: usize = 0;
    while k < months.len()
        invariant
            k <= months@.len(),
            forall|k2: int| 0 <= k2 < k ==> months@[k2] != (y, m),
        decreases months@.len() - k,
    {
        let (py, pm) = months[k];
        if py == y && pm == m {
            proof {
                assert(months@[k as int] == (y, m));
            }
            return true;
        }
        k = k + 1;
    }
    false
}

/// Decides one archive run over `habits` as of `today`: one bucket for every
/// month other than the current one that any habit has an entry in, holding
/// the filtered copies of exactly the habits with entries in it; and as the
/// live remainder the filtered copies of exactly the habits with entries in
/// the current month.
pub fn plan_archive(habits: &Vec<HabitVariant>, today: Date) -> (plan: ArchivePlan)
    requires
        forall|i: int| 0 <= i < habits@.len() ==> (#[trigger] habits@[i]).wf(),
        today.spec_valid(),
    ensures
        forall|i: int| 0 <= i < plan.live@.len() ==> (#[trigger] plan.live@[i]).wf(),
        spec_live_matches(plan.live@, habits@, today.year, today.month),
        forall|k: int|
            0 <= k < plan.buckets@.len() ==> {
                let b = #[trigger] plan.buckets@[k];
                &&& 1 <= b.month <= 12
                &&& !(b.year == today.year && b.month == today.month)
                &&& spec_any_has_month(habits@, b.year, b.month)
                &&& spec_live_matches(b.habits@, habits@, b.year, b.month)
                &&& b.filename@ == spec_bucket_filename(b.year, b.month)
                &&& forall|i: int| 0 <= i < b.habits@.len() ==> (#[trigger] b.habits@[i]).wf()
            },
        forall|k1: int, k2: int|
            0 <= k1 < k2 < plan.buckets@.len() ==> !((#[trigger] plan.buckets@[k1]).year == (
            #[trigger] plan.buckets@[k2]).year && plan.buckets@[k1].month
                == plan.buckets@[k2].month),
        forall|y: u32, m: u32|
            spec_any_has_month(habits@, y, m) && !(y == today.year && m == today.month)
                ==> exists|k: int|
                0 <= k < plan.buckets@.len() && (#[trigger] plan.buckets@[k]).year == y
                    && plan.buckets@[k].month == m,
{
    // Phase one: every (year, month) pair with entries, other than the
    // current month, each exactly once.
    let mut months: Vec<(u32, u32)> = Vec::new();
    let mut i: usize = 0;
    while i < habits.len()
        invariant
            forall|k: int| 0 <= k < habits@.len() ==> (#[trigger] habits@[k]).wf(),
            today.spec_valid(),
            i <= habits@.len(),
            forall|k: int|
                0 <= k < months@.len() ==> {
                    let p = #[trigger] months@[k];
                    &&& 1 <= p.1 <= 12
                    &&& !(p.0 == today.year && p.1 == today.month)
                    &&& spec_any_has_month(habits@, p.0, p.1)
                },
            forall|k1: int, k2: int|
                0 <= k1 < k2 < months@.len() ==> months@[k1] != months@[k2],
            forall|y: u32, m: u32|
                !(y == today.year && m == today.month) && #[trigger] spec_any_has_month_upto(
                    habits@,
                    i as int,
                    y,
                    m,
                ) ==> exists|k: int| 0 <= k < months@.len() && months@[k] == (y, m),
        decreases habits@.len() - i,
    {
        let ds = habits[i].get_dates();
        let mut j: usize = 0;
        while j < ds.len()
            invariant
                forall|k: int| 0 <= k < habits@.len() ==> (#[trigger] habits@[k]).wf(),
                today.spec_valid(),
                i < habits@.len(),
                j <= ds@.len(),
                forall|q: int|
                    0 <= q < ds@.len() ==> (#[trigger] ds@[q]).spec_valid()
                        && habits@[i as int].spec_contains(ds@[q]),
                forall|d: Date| habits@[i as int].spec_contains(d) ==> ds@.contains(d),
                forall|k: int|
                    0 <= k < months@.len() ==> {
                        let p = #[trigger] months@[k];
                        &&& 1 <= p.1 <= 12
                        &&& !(p.0 == today.year && p.1 == today.month)
                        &&& spec_any_has_month(habits@, p.0, p.1)
                    },
                forall|k1: int, k2: int|
                    0 <= k1 < k2 < months@.len() ==> months@[k1] != months@[k2],
                forall|y: u32, m: u32|
                    !(y == today.year && m == today.month) && #[trigger] spec_any_has_month_upto(
                        habits@,
                        i as int,
                        y,
                        m,
                    ) ==> exists|k: int| 0 <= k < months@.len() && months@[k] == (y, m),
                forall|q: int|
                    0 <= q < j && !((#[trigger] ds@[q]).year == today.year && ds@[q].month
                        == today.month) ==> exists|k: int|
                        0 <= k < months@.len() && months@[k] == (ds@[q].year, ds@[q].month),
            decreases ds@.len() - j,
        {
            let d = ds[j];
            if !(d.year == today.year && d.month == today.month) && !contains_pair(
                &months,
                d.year,
                d.month,
            ) {
                let ghost old_months = months@;
                months.push((d.year, d.month));
                proof {
                    assert(months@[months@.len() - 1] == (d.year, d.month));
                    assert(habits@[i as int].spec_contains(d));
                    assert(habits@[i as int].spec_has_month(d.year, d.month)) by {
                        match habits@[i as int] {
                            HabitVariant::Bit(h) => {
                                assert(h.stats@.dom().contains(d));
                            },
                            HabitVariant::Count(h) => {
                                assert(h.stats@.dom().contains(d));
                            },
                            HabitVariant::Float(h) => {
                                assert(h.stats@.dom().contains(d));
                            },
                        }
                    }
                    assert forall|k1: int, k2: int|
                        0 <= k1 < k2 < months@.len() implies months@[k1] != months@[k2] by {
                        if k2 == months@.len() - 1 {
                            assert(old_months[k1] != (d.year, d.month));
                        }
                    }
                    assert forall|y: u32, m: u32|
                        !(y == today.year && m == today.month)
                            && #[trigger] spec_any_has_month_upto(
                            habits@,
                            i as int,
                            y,
                            m,
                        ) implies exists|k: int|
                        0 <= k < months@.len() && months@[k] == (y, m) by {
                        let k0 = choose|k0: int|
                            0 <= k0 < old_months.len() && old_months[k0] == (y, m);
                        assert(months@[k0] == (y, m));
                    }
                    assert forall|q: int|
                        0 <= q < j + 1 && !((#[trigger] ds@[q]).year == today.year
                            && ds@[q].month == today.month) implies exists|k: int|
                        0 <= k < months@.len() && months@[k] == (ds@[q].year, ds@[q].month) by {
                        if q < j {
                            let k0 = choose|k0: int|
                                0 <= k0 < old_months.len() && old_months[k0] == (
                                ds@[q].year,
                                ds@[q].month,
                                );
                            assert(months@[k0] == (ds@[q].year, ds@[q].month));
                        } else {
                            assert(months@[months@.len() - 1] == (d.year, d.month));
                        }
                    }
                }
            }
            j = j + 1;
        }
        proof {
            assert forall|y: u32, m: u32|
                !(y == today.year && m == today.month) && #[trigger] spec_any_has_month_upto(
                    habits@,
                    i as int + 1,
                    y,
                    m,
                ) implies exists|k: int| 0 <= k < months@.len() && months@[k] == (y, m) by {
                let i0 = choose|i0: int|
                    0 <= i0 < i as int + 1 && (#[trigger] habits@[i0]).spec_has_month(y, m);
                if i0 < i {
                    assert(spec_any_has_month_upto(habits@, i as int, y, m));
                }
                if i0 == i {
                    let h = habits@[i as int];
                    assert(h.spec_has_month(y, m));
                    match h {
                        HabitVariant::Bit(hh) => {
                            let dd = choose|dd: Date|
                                #[trigger] hh.stats@.dom().contains(dd) && dd.year == y
                                    && dd.month == m;
                            assert(h.spec_contains(dd));
                            assert(ds@.contains(dd));
                            let q = choose|q: int| 0 <= q < ds@.len() && ds@[q] == dd;
                            assert(ds@[q].year == y && ds@[q].month == m);
                        },
                        HabitVariant::Count(hh) => {
                            let dd = choose|dd: Date|
                                #[trigger] hh.stats@.dom().contains(dd) && dd.year == y
                                    && dd.month == m;
                            assert(h.spec_contains(dd));
                            assert(ds@.contains(dd));
                            let q = choose|q: int| 0 <= q < ds@.len() && ds@[q] == dd;
                            assert(ds@[q].year == y && ds@[q].month == m);
                        },
                        HabitVariant::Float(hh) => {
                            let dd = choose|dd: Date|
                                #[trigger] hh.stats@.dom().contains(dd) && dd.year == y
                                    && dd.month == m;
                            assert(h.spec_contains(dd));
                            assert(ds@.contains(dd));
                            let q = choose|q: int| 0 <= q < ds@.len() && ds@[q] == dd;
                            assert(ds@[q].year == y && ds@[q].month == m);
                        },
                    }
                }
            }
        }
        i = i + 1;
    }

    // Phase two: one bucket per collected month.
    let mut buckets: Vec<MonthBucket> = Vec::new();
    let mut k: usize = 0;
    while k < months.len()
        invariant
            forall|k0: int| 0 <= k0 < habits@.len() ==> (#[trigger] habits@[k0]).wf(),
            today.spec_valid(),
            k <= months@.len(),
            buckets@.len() == k,
            forall|k0: int|
                0 <= k0 < months@.len() ==> {
                    let p = #[trigger] months@[k0];
                    &&& 1 <= p.1 <= 12
                    &&& !(p.0 == today.year && p.1 == today.month)
                    &&& spec_any_has_month(habits@, p.0, p.1)
                },
            forall|k1: int, k2: int|
                0 <= k1 < k2 < months@.len() ==> months@[k1] != months@[k2],
            forall|k0: int|
                0 <= k0 < k ==> ((#[trigger] buckets@[k0]).year, buckets@[k0].month)
                    == months@[k0],
            forall|k0: int|
                0 <= k0 < k ==> {
                    let b = #[trigger] buckets@[k0];
                    &&& spec_live_matches(b.habits@, habits@, b.year, b.month)
                    &&& b.filename@ == spec_bucket_filename(b.year, b.month)
                    &&& forall|i0: int|
                        0 <= i0 < b.habits@.len() ==> (#[trigger] b.habits@[i0]).wf()
                },
        decreases months@.len() - k,
    {
        let (y, m) = months[k];
        let hb = collect_filtered(habits, y, m);
        let filename = bucket_filename(y, m);
        buckets.push(MonthBucket { year: y, month: m, filename, habits: hb });
        k = k + 1;
    }

    // Phase three: what stays live.
    let live = collect_filtered(habits, today.year, today.month);
    let ghost gmonths = months@;
    let plan = ArchivePlan { buckets, live };
    proof {
        assert forall|y: u32, m: u32|
            spec_any_has_month(habits@, y, m) && !(y == today.year && m == today.month) implies
        exists|k0: int|
            0 <= k0 < plan.buckets@.len() && (#[trigger] plan.buckets@[k0]).year == y
                && plan.buckets@[k0].month == m by {
            let i0 = choose|i0: int|
                0 <= i0 < habits@.len() && (#[trigger] habits@[i0]).spec_has_month(y, m);
            assert(spec_any_has_month_upto(habits@, habits@.len() as int, y, m));
            let k0 = choose|k0: int| 0 <= k0 < gmonths.len() && gmonths[k0] == (y, m);
            assert(plan.buckets@[k0].year == y && plan.buckets@[k0].month == m);
        }
        assert forall|k1: int, k2: int|
            0 <= k1 < k2 < plan.buckets@.len() implies !((#[trigger] plan.buckets@[k1]).year
            == (#[trigger] plan.buckets@[k2]).year && plan.buckets@[k1].month
            == plan.buckets@[k2].month) by {
            assert(gmonths[k1] != gmonths[k2]);
            assert((plan.buckets@[k1].year, plan.buckets@[k1].month) == gmonths[k1]);
            assert((plan.buckets@[k2].year, plan.buckets@[k2].month) == gmonths[k2]);
        }
    }
    plan
}

/// Law: archiving is mass-conserving at the level of one habit's stats. A
/// dated entry survives in the partition of its own month exactly — with its
/// value — and appears in no other month's partition, so the union of all
/// monthly partitions is the original map, with nothing lost and nothing
/// duplicated.
pub proof fn lemma_archive_mass_conserving<V>(stats: Map<Date, V>, y: u32, m: u32, d: Date)
    ensures
        spec_month_restrict(stats, y, m).contains_key(d) <==> (stats.contains_key(d) && d.year
            == y && d.month == m),
        spec_month_restrict(stats, y, m).contains_key(d) ==> spec_month_restrict(stats, y, m)[d]
            == stats[d],
{
}

/// Law: a month part holds exactly its own month's entries of the source
/// habit. Together with the bucket contracts of `plan_archive` this carries
/// the mass conservation above to whole habits: a copy in the (`y`, `m`)
/// bucket holds a date exactly when the source habit recorded it in that
/// month.
pub proof fn lemma_month_part_entries(
    part: HabitVariant,
    h: HabitVariant,
    y: u32,
    m: u32,
    d: Date,
)
    requires
        HabitVariant::spec_is_month_part(part, h, y, m),
    ensures
        part.spec_contains(d) <==> (h.spec_contains(d) && d.year == y && d.month == m),
{
}

/// Law: archiving is destructive-by-design for non-current months — every
/// habit kept live by a plan holds entries of the plan's own (current) month
/// and of no other.
pub proof fn lemma_live_only_current_month(
    live: Seq<HabitVariant>,
    hs: Seq<HabitVariant>,
    y: u32,
    m: u32,
)
    requires
        spec_live_matches(live, hs, y, m),
    ensures
        forall|k: int, d: Date|
            #![trigger live[k].spec_contains(d)]
            0 <= k < live.len() && live[k].spec_contains(d) ==> d.year == y && d.month == m,
    decreases hs.len(),
{
    if hs.len() == 0 {
    } else {
        let h = hs.last();
        if h.spec_has_month(y, m) {
            lemma_live_only_current_month(live.drop_last(), hs.drop_last(), y, m);
            assert forall|k: int, d: Date|
                #![trigger live[k].spec_contains(d)]
                0 <= k < live.len() && live[k].spec_contains(d) implies d.year == y && d.month
                == m by {
                if k < live.len() - 1 {
                    assert(live.drop_last()[k] == live[k]);
                } else {
                    assert(HabitVariant::spec_is_month_part(live.last(), h, y, m));
                }
            }
        } else {
            lemma_live_only_current_month(live, hs.drop_last(), y, m);
        }
    }
}

} // verus!
