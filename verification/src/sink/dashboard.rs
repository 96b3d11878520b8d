//! Dashboard sink: configuration and the per-flush summary that it broadcasts
//! to connected browsers.

use crate::log_entry::{level_display, LogLevel, LogRecord};
use vstd::prelude::*;

verus! {

/// The port the dashboard's web server listens on.
#[derive(Debug)]
pub struct DashboardConfig {
    pub port: u16,
}

/// Number of positions at which `x` occurs in `xs`.
pub open spec fn occurrences<A>(xs: Seq<A>, x: A) -> nat
    decreases xs.len(),
{
    if xs.len() == 0 {
        0
    } else {
        occurrences(xs.drop_last(), x) + (if xs.last() == x {
            1nat
        } else {
            0nat
        })
    }
}

/// Sum of a sequence of counts.
pub open spec fn total(counts: Seq<usize>) -> nat
    decreases counts.len(),
{
    if counts.len() == 0 {
        0
    } else {
        total(counts.drop_last()) + counts.last() as nat
    }
}

/// The services of a batch, entry by entry.
pub open spec fn batch_services(batch: Seq<LogRecord>) -> Seq<Seq<char>> {
    batch.map_values(|r: LogRecord| r.service@)
}

/// The levels of a batch, entry by entry.
pub open spec fn batch_levels(batch: Seq<LogRecord>) -> Seq<LogLevel> {
    batch.map_values(|r: LogRecord| r.level)
}

/// The four levels in order.
pub open spec fn all_levels() -> Seq<LogLevel> {
    seq![LogLevel::Debug, LogLevel::Info, LogLevel::Warn, LogLevel::Error]
}

/// What a flush wrote, counted by service and by level.
pub struct FlushSummary {
    /// Number of entries in the batch.
    pub total_count: usize,
    /// The distinct services of the batch.
    pub services: Vec<String>,
    /// `service_counts[i]` entries came from `services[i]`.
    pub service_counts: Vec<usize>,
    /// The levels that occur in the batch, in the order Debug, Info, Warn, Error.
    pub levels: Vec<LogLevel>,
    /// `level_counts[i]` entries have level `levels[i]`.
    pub level_counts: Vec<usize>,
}

/// `keys`/`counts` count the occurrences of every distinct value of `xs`:
/// the keys are distinct, each is counted exactly, and every value of `xs` is a key.
pub open spec fn counts_all<A>(xs: Seq<A>, keys: Seq<A>, counts: Seq<usize>) -> bool {
    &&& keys.len() == counts.len()
    &&& forall|i: int, j: int| 0 <= i < j < keys.len() ==> keys[i] != keys[j]
    &&& forall|i: int| 0 <= i < keys.len() ==> counts[i] == occurrences(xs, #[trigger] keys[i])
    &&& forall|i: int| 0 <= i < keys.len() ==> counts[i] > 0
    &&& forall|k: int| 0 <= k < xs.len() ==> keys.contains(#[trigger] xs[k])
}

impl FlushSummary {
    /// The summary is an exact count of `batch` by service and by level.
    pub open spec fn describes(&self, batch: Seq<LogRecord>) -> bool {
        &&& self.total_count == batch.len()
        &&& counts_all(
            batch_services(batch),
            self.services@.map_values(|s: String| s@),
            self.service_counts@,
        )
        &&& counts_all(batch_levels(batch), self.levels@, self.level_counts@)
        &&& forall|i: int, j: int|
            0 <= i < j < self.levels@.len() ==> crate::log_entry::level_index(self.levels@[i])
                < crate::log_entry::level_index(self.levels@[j])
    }

    /// The display names of the levels, as the dashboard keys them.
    pub fn level_names(&self) -> (names: Vec<&'static str>)
        ensures
            names.len() == self.levels.len(),
            forall|i: int| 0 <= i < names.len() ==> #[trigger] names@[i]@ == level_display(self.levels@[i]),
    {
        let mut names: Vec<&'static str> = Vec::new();
        let mut i: usize = 0;
        while i < self.levels.len()
            invariant
                i <= self.levels.len(),
                names.len() == i,
                forall|k: int| 0 <= k < i ==> #[trigger] names@[k]@ == level_display(self.levels@[k]),
            decreases self.levels.len() - i,
        {
            names.push(self.levels[i].as_str());
            i = i + 1;
        }
        names
    }
}

proof fn lemma_occurrences_push<A>(xs: Seq<A>, y: A, x: A)
    ensures
        occurrences(xs.push(y), x) == occurrences(xs, x) + (if y == x {
            1nat
        } else {
            0nat
        }),
{
    assert(xs.push(y).drop_last() =~= xs);
}

proof fn lemma_total_push(counts: Seq<usize>, c: usize)
    ensures
        total(counts.push(c)) == total(counts) + c,
{
    assert(counts.push(c).drop_last() =~= counts);
}

proof fn lemma_total_increment(counts: Seq<usize>, j: int)
    requires
        0 <= j < counts.len(),
        counts[j] < usize::MAX,
    ensures
        total(counts.update(j, (counts[j] + 1) as usize)) == total(counts) + 1,
    decreases counts.len(),
{
    let upd = counts.update(j, (counts[j] + 1) as usize);
    if j == counts.len() - 1 {
        assert(upd.drop_last() =~= counts.drop_last());
    } else {
        lemma_total_increment(counts.drop_last(), j);
        assert(upd.drop_last() =~= counts.drop_last().update(j, (counts[j] + 1) as usize));
    }
}

/// Counts a batch by service and by level.
pub fn summarize(batch: &Vec<LogRecord>) -> (s: FlushSummary)
    ensures
        s.describes(batch@),
        total(s.service_counts@) == batch.len(),
        total(s.level_counts@) == batch.len(),
{
    let ghost svc = batch_services(batch@);
    let ghost lvl = batch_levels(batch@);
    let mut services: Vec<String> = Vec::new();
    let mut service_counts: Vec<usize> = Vec::new();
    let mut per_level: Vec<usize> = Vec::new();
    per_level.push(0);
    per_level.push(0);
    per_level.push(0);
    per_level.push(0);
    proof {
        assert(per_level@ =~= seq![0usize, 0usize, 0usize, 0usize]);
        reveal_with_fuel(total, 5);
        assert(svc.take(0) =~= Seq::<Seq<char>>::empty());
        assert(lvl.take(0) =~= Seq::<LogLevel>::empty());
    }
    let mut i: usize = 0;
    while i < batch.len()
        invariant
            i <= batch.len(),
            svc == batch_services(batch@),
            lvl == batch_levels(batch@),
            counts_all(svc.take(i as int), services@.map_values(|s: String| s@), service_counts@),
            forall|k: int| 0 <= k < service_counts.len() ==> service_counts@[k] <= i,
            total(service_counts@) == i,
            per_level.len() == 4,
            forall|k: int| 0 <= k < 4 ==> per_level@[k] == occurrences(lvl.take(i as int), #[trigger] all_levels()[k]),
            forall|k: int| 0 <= k < 4 ==> per_level@[k] <= i,
            total(per_level@) == i,
        decreases batch.len() - i,
    {
        let ghost keys0 = services@.map_values(|s: String| s@);
        let ghost counts0 = service_counts@;
        let ghost before = svc.take(i as int);
        let ghost after = svc.take(i + 1);
        let ghost lbefore = lvl.take(i as int);
        let ghost lafter = lvl.take(i + 1);
        let rec = &batch[i];
        proof {
            assert(after =~= before.push(rec.service@));
            assert(lafter =~= lbefore.push(rec.level));
        }
        // count the service
        let found = position_of(&services, &rec.service);
        if let Some(j) = found {
            proof {
                assert(keys0[j as int] == rec.service@);
                lemma_total_increment(counts0, j as int);
                assert forall|k: int| 0 <= k < keys0.len() implies
                    #[trigger] counts0.update(j as int, (counts0[j as int] + 1) as usize)[k]
                        == occurrences(after, keys0[k]) by {
                    lemma_occurrences_push(before, rec.service@, keys0[k]);
                }
                assert forall|k: int| 0 <= k < after.len() implies keys0.contains(#[trigger] after[k]) by {
                    if k < before.len() {
                        assert(after[k] == before[k]);
                    } else {
                        assert(keys0[j as int] == after[k]);
                    }
                }
            }
            let c = service_counts[j];
            service_counts.set(j, c + 1);
        } else {
            services.push(rec.service.clone());
            service_counts.push(1);
            proof {
                let keys1 = services@.map_values(|s: String| s@);
                assert(keys1 =~= keys0.push(rec.service@));
                lemma_total_push(counts0, 1);
                lemma_occurrences_push(before, rec.service@, rec.service@);
                assert(!keys0.contains(rec.service@));
                if occurrences(before, rec.service@) > 0 {
                    lemma_occurs_witness(before, rec.service@);
                    let m = choose|m: int| 0 <= m < before.len() && before[m] == rec.service@;
                    assert(keys0.contains(before[m]));
                }
                assert forall|k: int| 0 <= k < keys1.len() implies service_counts@[k] == occurrences(
                    after,
                    #[trigger] keys1[k],
                ) by {
                    lemma_occurrences_push(before, rec.service@, keys1[k]);
                    if k < keys0.len() {
                        assert(keys1[k] == keys0[k]);
                        assert(keys0[k] != rec.service@);
                    }
                }
                assert forall|k: int| 0 <= k < after.len() implies keys1.contains(#[trigger] after[k]) by {
                    if k < before.len() {
                        assert(after[k] == before[k]);
                        assert(keys0.contains(before[k]));
                        let w = choose|w: int| 0 <= w < keys0.len() && keys0[w] == before[k];
                        assert(keys1[w] == keys0[w]);
                    } else {
                        assert(keys1[keys0.len() as int] == after[k]);
                    }
                }
            }
        }
        // count the level
        let li = rec.level.index();
        let ghost pl0 = per_level@;
        let lc = per_level[li];
        per_level.set(li, lc + 1);
        proof {
            lemma_total_increment(pl0, li as int);
            assert forall|k: int| 0 <= k < 4 implies per_level@[k] == occurrences(
                lafter,
                #[trigger] all_levels()[k],
            ) by {
                lemma_occurrences_push(lbefore, rec.level, all_levels()[k]);
            }
        }
        i = i + 1;
    }
    proof {
        assert(svc.take(batch.len() as int) =~= svc);
        assert(lvl.take(batch.len() as int) =~= lvl);
    }
    // keep the levels that occur, in order
    let mut levels: Vec<LogLevel> = Vec::new();
    let mut level_counts: Vec<usize> = Vec::new();
    let mut k: usize = 0;
    assert(per_level@.subrange(0, 4) =~= per_level@);
    while k < 4
        invariant
            k <= 4,
            per_level.len() == 4,
            forall|m: int| 0 <= m < 4 ==> per_level@[m] == occurrences(lvl, #[trigger] all_levels()[m]),
            levels.len() == level_counts.len(),
            forall|a: int| 0 <= a < levels.len() ==> level_counts@[a] == occurrences(lvl, #[trigger] levels@[a]),
            forall|a: int| 0 <= a < levels.len() ==> level_counts@[a] > 0,
            forall|a: int| 0 <= a < levels.len() ==> crate::log_entry::level_index(#[trigger] levels@[a]) < k,
            forall|a: int, b: int| 0 <= a < b < levels.len() ==> crate::log_entry::level_index(levels@[a])
                < crate::log_entry::level_index(levels@[b]),
            forall|m: int| 0 <= m < k && per_level@[m] > 0 ==> levels@.contains(#[trigger] all_levels()[m]),
            total(level_counts@) + total(per_level@.subrange(k as int, 4)) == total(per_level@),
        decreases 4 - k,
    {
        let c = per_level[k];
        let level = if k == 0 {
            LogLevel::Debug
        } else if k == 1 {
            LogLevel::Info
        } else if k == 2 {
            LogLevel::Warn
        } else {
            LogLevel::Error
        };
        assert(level == all_levels()[k as int]);
        proof {
            let rest = per_level@.subrange(k as int, 4);
            assert(rest =~= seq![per_level@[k as int]] + per_level@.subrange(k + 1, 4));
            lemma_total_front(rest);
            assert(rest.drop_first() =~= per_level@.subrange(k + 1, 4));
        }
        let ghost old_levels = levels@;
        let ghost old_counts = level_counts@;
        if c > 0 {
            levels.push(level);
            level_counts.push(c);
            proof {
                lemma_total_push(old_counts, c);
                assert(old_counts.push(c) =~= level_counts@);
                assert forall|m: int| 0 <= m < k + 1 && per_level@[m] > 0 implies levels@.contains(
                    #[trigger] all_levels()[m],
                ) by {
                    if m == k {
                        assert(levels@[levels@.len() - 1] == all_levels()[m]);
                    } else {
                        assert(old_levels.contains(all_levels()[m]));
                        let w = choose|w: int| 0 <= w < old_levels.len() && old_levels[w] == all_levels()[m];
                        assert(levels@[w] == old_levels[w]);
                    }
                }
            }
        }
        k = k + 1;
    }
    proof {
        assert(per_level@.subrange(4, 4) =~= Seq::<usize>::empty());
        lemma_total_four(per_level@);
        assert forall|a: int, b: int| 0 <= a < b < levels.len() implies levels@[a] != levels@[b] by {
        }
        assert forall|m: int| 0 <= m < lvl.len() implies levels@.contains(#[trigger] lvl[m]) by {
            let l = lvl[m];
            let idx = crate::log_entry::level_index(l);
            assert(all_levels()[idx] == l);
            lemma_occurs_positive(lvl, m);
        }
    }
    FlushSummary { total_count: batch.len(), services, service_counts, levels, level_counts }
}

proof fn lemma_total_front(counts: Seq<usize>)
    requires
        counts.len() > 0,
    ensures
        total(counts) == counts[0] + total(counts.drop_first()),
    decreases counts.len(),
{
    if counts.len() == 1 {
        assert(counts.drop_first() =~= Seq::<usize>::empty());
        assert(counts.drop_last() =~= Seq::<usize>::empty());
    } else {
        let init = counts.drop_last();
        lemma_total_front(init);
        assert(init.drop_first() =~= counts.drop_first().drop_last());
        assert(counts.drop_first().last() == counts.last());
        assert(init[0] == counts[0]);
    }
}

proof fn lemma_occurs_witness<A>(xs: Seq<A>, x: A)
    requires
        occurrences(xs, x) > 0,
    ensures
        exists|m: int| 0 <= m < xs.len() && xs[m] == x,
    decreases xs.len(),
{
    if xs.last() != x {
        lemma_occurs_witness(xs.drop_last(), x);
        let m = choose|m: int| 0 <= m < xs.drop_last().len() && xs.drop_last()[m] == x;
        assert(xs[m] == x);
    } else {
        assert(xs[xs.len() - 1] == x);
    }
}

/// Index of the first string in `keys` with the text of `s`, if any.
fn position_of(keys: &Vec<String>, s: &String) -> (pos: Option<usize>)
    ensures
        pos matches Some(j) ==> j < keys.len() && keys@[j as int]@ == s@,
        pos is None ==> forall|k: int| 0 <= k < keys.len() ==> keys@[k]@ != s@,
{
    let mut j: usize = 0;
    while j < keys.len()
        invariant
            j <= keys.len(),
            forall|k: int| 0 <= k < j ==> keys@[k]@ != s@,
        decreases keys.len() - j,
    {
        if keys[j] == *s {
            return Some(j);
        }
        j = j + 1;
    }
    None
}

proof fn lemma_total_four(counts: Seq<usize>)
    requires
        counts.len() == 4,
    ensures
        total(counts) == total(counts.subrange(0, 4)),
{
    assert(counts.subrange(0, 4) =~= counts);
}

proof fn lemma_occurs_positive<A>(xs: Seq<A>, m: int)
    requires
        0 <= m < xs.len(),
    ensures
        occurrences(xs, xs[m]) > 0,
    decreases xs.len(),
{
    if m < xs.len() - 1 {
        lemma_occurs_positive(xs.drop_last(), m);
    }
}

} // verus!
