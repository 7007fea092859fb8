use crate::text::str_eq;
use vstd::prelude::*;

verus! {

/// Per-extension (or grand-total) counters: how many files were recorded and
/// how many lines they held together.
#[derive(Clone, Copy, PartialEq, Eq, Structural, Debug)]
pub struct Totals {
    pub files: u64,
    pub lines: u64,
}

/// Running totals of a traversal: one bucket per extension key seen so far,
/// in first-touch order, plus the grand total over all buckets.
pub struct Aggregator {
    pub entries: Vec<(String, Totals)>,
    pub grand: Totals,
}

/// The sum of the `files` counters of the buckets of `s`.
pub open spec fn sum_files(s: Seq<(String, Totals)>) -> int
    decreases s.len(),
{
    if s.len() == 0 {
        0
    } else {
        sum_files(s.drop_last()) + s.last().1.files
    }
}

/// The sum of the `lines` counters of the buckets of `s`.
pub open spec fn sum_lines(s: Seq<(String, Totals)>) -> int
    decreases s.len(),
{
    if s.len() == 0 {
        0
    } else {
        sum_lines(s.drop_last()) + s.last().1.lines
    }
}

/// The bucket of `s` whose key reads `k`, if any.
pub open spec fn seq_get(s: Seq<(String, Totals)>, k: Seq<char>) -> Option<Totals>
    decreases s.len(),
{
    if s.len() == 0 {
        None
    } else if s.last().0@ == k {
        Some(s.last().1)
    } else {
        seq_get(s.drop_last(), k)
    }
}

/// Whether no two buckets of `s` share a key.
pub open spec fn keys_unique(s: Seq<(String, Totals)>) -> bool {
    forall|i: int, j: int| 0 <= i < j < s.len() ==> s[i].0@ != s[j].0@
}

/// Adds `df` files and `dn` lines to the bucket of `e` in the abstract table,
/// creating the bucket with zero values first when it is absent.
pub open spec fn bump(m: Map<Seq<char>, (int, int)>, e: Seq<char>, df: int, dn: int) -> Map<
    Seq<char>,
    (int, int),
> {
    let cur = if m.dom().contains(e) {
        m[e]
    } else {
        (0int, 0int)
    };
    m.insert(e, (cur.0 + df, cur.1 + dn))
}

impl Aggregator {
    /// The internal invariant: bucket keys are distinct and the grand total is
    /// the sum over the buckets.
    pub open spec fn wf(self) -> bool {
        &&& keys_unique(self.entries@)
        &&& self.grand.files == sum_files(self.entries@)
        &&& self.grand.lines == sum_lines(self.entries@)
    }

    /// The bucket recorded for extension key `k`, if any.
    pub open spec fn spec_get(self, k: Seq<char>) -> Option<Totals> {
        seq_get(self.entries@, k)
    }

    /// The buckets as a mapping from extension key to (files, lines).
    pub open spec fn table(self) -> Map<Seq<char>, (int, int)> {
        Map::new(
            |k: Seq<char>| seq_get(self.entries@, k) is Some,
            |k: Seq<char>|
                (
                    seq_get(self.entries@, k)->Some_0.files as int,
                    seq_get(self.entries@, k)->Some_0.lines as int,
                ),
        )
    }

    /// An aggregator with no buckets and a zero grand total.
    pub fn new() -> (a: Aggregator)
        ensures
            a.wf(),
            a.grand == (Totals { files: 0, lines: 0 }),
            a.entries@.len() == 0,
            a.table() == Map::<Seq<char>, (int, int)>::empty(),
    {
        let a = Aggregator { entries: Vec::new(), grand: Totals { files: 0, lines: 0 } };
        proof {
            assert(a.table() =~= Map::<Seq<char>, (int, int)>::empty());
        }
        a
    }

    /// The position of the bucket keyed `e`, if any.
    fn find_index(&self, e: &str) -> (r: Option<usize>)
        ensures
            match r {
                Some(i) => i < self.entries@.len() && self.entries@[i as int].0@ == e@,
                None => forall|j: int|
                    0 <= j < self.entries@.len() ==> self.entries@[j].0@ != e@,
            },
    {
        let mut i: usize = 0;
        while i < self.entries.len()
            invariant
                i <= self.entries@.len(),
                forall|j: int| 0 <= j < i ==> self.entries@[j].0@ != e@,
            decreases self.entries@.len() - i,
        {
            if str_eq(self.entries[i].0.as_str(), e) {
                return Some(i);
            }
            i = i + 1;
        }
        None
    }

    /// Adds `df` to the file counter and `dn` to the line counter of the
    /// bucket of `e`, creating the bucket on first touch, and folds the same
    /// increments into the grand total.
    fn bump_entry(&mut self, e: &String, df: u64, dn: u64)
        requires
            old(self).wf(),
            old(self).grand.files + df <= u64::MAX,
            old(self).grand.lines + dn <= u64::MAX,
        ensures
            final(self).wf(),
            final(self).table() == bump(old(self).table(), e@, df as int, dn as int),
            final(self).grand.files == old(self).grand.files + df,
            final(self).grand.lines == old(self).grand.lines + dn,
            final(self).entries@.len() == old(self).entries@.len() + (
            if old(self).spec_get(e@) is Some {
                0int
            } else {
                1int
            }),
    {
        let ghost s0 = self.entries@;
        match self.find_index(e.as_str()) {
            Some(i) => {
                proof {
                    lemma_seq_get_present(s0, e@, i as int);
                    lemma_entry_le_sums(s0, i as int);
                }
                let k = self.entries[i].0.clone();
                let t = self.entries[i].1;
                self.entries[i] = (k, Totals { files: t.files + df, lines: t.lines + dn });
                self.grand = Totals { files: self.grand.files + df, lines: self.grand.lines + dn };
                proof {
                    let s1 = self.entries@;
                    assert(s1 =~= s0.update(
                        i as int,
                        (s0[i as int].0, Totals { files: (t.files + df) as u64, lines: (t.lines + dn) as u64 }),
                    ));
                    lemma_sums_update(s0, i as int, Totals { files: (t.files + df) as u64, lines: (t.lines + dn) as u64 });
                    lemma_seq_get_update(s0, i as int, Totals { files: (t.files + df) as u64, lines: (t.lines + dn) as u64 });
                    assert(self.table() =~= bump(old(self).table(), e@, df as int, dn as int));
                }
            },
            None => {
                proof {
                    lemma_seq_get_absent(s0, e@);
                }
                self.entries.push((e.clone(), Totals { files: df, lines: dn }));
                self.grand = Totals { files: self.grand.files + df, lines: self.grand.lines + dn };
                proof {
                    let s1 = self.entries@;
                    assert(s1.drop_last() =~= s0);
                    assert(s1.last().0@ == e@);
                    assert(forall|k: Seq<char>|
                        k != e@ ==> seq_get(s1, k) == seq_get(s0, k));
                    assert(self.table() =~= bump(old(self).table(), e@, df as int, dn as int));
                }
            },
        }
    }

    /// Records one included file with extension key `e`: its bucket's file
    /// counter and the grand total's file counter each grow by one.
    pub fn record_file(&mut self, e: &String)
        requires
            old(self).wf(),
            old(self).grand.files < u64::MAX,
        ensures
            final(self).wf(),
            final(self).table() == bump(old(self).table(), e@, 1, 0),
            final(self).grand.files == old(self).grand.files + 1,
            final(self).grand.lines == old(self).grand.lines,
    {
        self.bump_entry(e, 1, 0);
    }

    /// Records `n` counted lines for extension key `e`: its bucket's line
    /// counter and the grand total's line counter each grow by `n`.
    pub fn record_lines(&mut self, e: &String, n: u64)
        requires
            old(self).wf(),
            old(self).grand.lines + n <= u64::MAX,
        ensures
            final(self).wf(),
            final(self).table() == bump(old(self).table(), e@, 0, n as int),
            final(self).grand.files == old(self).grand.files,
            final(self).grand.lines == old(self).grand.lines + n,
    {
        self.bump_entry(e, 0, n);
    }

    /// The totals recorded for extension key `e`, if any file with that key
    /// was recorded.
    pub fn totals_for(&self, e: &str) -> (r: Option<Totals>)
        requires
            self.wf(),
        ensures
            r == self.spec_get(e@),
    {
        match self.find_index(e) {
            Some(i) => {
                proof {
                    lemma_seq_get_present(self.entries@, e@, i as int);
                }
                Some(self.entries[i].1)
            },
            None => {
                proof {
                    lemma_seq_get_absent(self.entries@, e@);
                }
                None
            },
        }
    }

    /// The grand total over all buckets.
    pub fn grand_totals(&self) -> (r: Totals)
        ensures
            r == self.grand,
    {
        self.grand
    }

    /// How many extension buckets exist.
    pub fn extension_count(&self) -> (r: usize)
        ensures
            r == self.entries@.len(),
    {
        self.entries.len()
    }
}

/// Each bucket's counters are bounded by the sums over all buckets.
proof fn lemma_entry_le_sums(s: Seq<(String, Totals)>, i: int)
    requires
        0 <= i < s.len(),
    ensures
        s[i].1.files <= sum_files(s),
        s[i].1.lines <= sum_lines(s),
        sum_files(s) >= 0,
        sum_lines(s) >= 0,
    decreases s.len(),
{
    lemma_sums_nonneg(s.drop_last());
    if i < s.len() - 1 {
        lemma_entry_le_sums(s.drop_last(), i);
        assert(s.drop_last()[i] == s[i]);
    }
}

/// The bucket sums are sums of unsigned counters, so they are non-negative.
proof fn lemma_sums_nonneg(s: Seq<(String, Totals)>)
    ensures
        sum_files(s) >= 0,
        sum_lines(s) >= 0,
    decreases s.len(),
{
    if s.len() > 0 {
        lemma_sums_nonneg(s.drop_last());
    }
}

/// When no bucket of `s` has key `k`, the lookup misses, and conversely.
proof fn lemma_seq_get_absent(s: Seq<(String, Totals)>, k: Seq<char>)
    requires
        forall|j: int| 0 <= j < s.len() ==> s[j].0@ != k,
    ensures
        seq_get(s, k) is None,
    decreases s.len(),
{
    if s.len() > 0 {
        assert(forall|j: int| 0 <= j < s.drop_last().len() ==> s.drop_last()[j] == s[j]);
        lemma_seq_get_absent(s.drop_last(), k);
    }
}

/// With distinct keys, the lookup of the key at position `i` returns the
/// bucket at position `i`.
proof fn lemma_seq_get_present(s: Seq<(String, Totals)>, k: Seq<char>, i: int)
    requires
        keys_unique(s),
        0 <= i < s.len(),
        s[i].0@ == k,
    ensures
        seq_get(s, k) == Some(s[i].1),
    decreases s.len(),
{
    if i < s.len() - 1 {
        assert(s.last().0@ != k);
        assert(forall|x: int, y: int|
            0 <= x < y < s.drop_last().len() ==> s.drop_last()[x] == s[x] && s.drop_last()[y]
                == s[y]);
        lemma_seq_get_present(s.drop_last(), k, i);
    }
}

/// Replacing the bucket at position `i` shifts the sums by the difference of
/// the counters.
proof fn lemma_sums_update(s: Seq<(String, Totals)>, i: int, t: Totals)
    requires
        0 <= i < s.len(),
    ensures
        sum_files(s.update(i, (s[i].0, t))) == sum_files(s) - s[i].1.files + t.files,
        sum_lines(s.update(i, (s[i].0, t))) == sum_lines(s) - s[i].1.lines + t.lines,
    decreases s.len(),
{
    let u = s.update(i, (s[i].0, t));
    if i == s.len() - 1 {
        assert(u.drop_last() =~= s.drop_last());
        assert(u.last() == (s[i].0, t));
    } else {
        assert(u.drop_last() =~= s.drop_last().update(i, (s.drop_last()[i].0, t)));
        assert(u.last() == s.last());
        lemma_sums_update(s.drop_last(), i, t);
    }
}

/// Replacing the bucket at position `i` changes the lookup only at its key,
/// provided keys are distinct.
proof fn lemma_seq_get_update(s: Seq<(String, Totals)>, i: int, t: Totals)
    requires
        keys_unique(s),
        0 <= i < s.len(),
    ensures
        seq_get(s.update(i, (s[i].0, t)), s[i].0@) == Some(t),
        forall|k: Seq<char>|
            k != s[i].0@ ==> seq_get(s.update(i, (s[i].0, t)), k) == seq_get(s, k),
    decreases s.len(),
{
    let u = s.update(i, (s[i].0, t));
    if i == s.len() - 1 {
        assert(u.drop_last() =~= s.drop_last());
        assert(u.last() == (s[i].0, t));
        assert(seq_get(u, s[i].0@) == Some(t));
        assert forall|k: Seq<char>| k != s[i].0@ implies seq_get(u, k) == seq_get(s, k) by {
            assert(seq_get(u, k) == seq_get(u.drop_last(), k));
            assert(seq_get(s, k) == seq_get(s.drop_last(), k));
        }
    } else {
        assert(u.drop_last() =~= s.drop_last().update(i, (s.drop_last()[i].0, t)));
        assert(u.last() == s.last());
        assert(forall|x: int, y: int|
            0 <= x < y < s.drop_last().len() ==> s.drop_last()[x] == s[x] && s.drop_last()[y]
                == s[y]);
        lemma_seq_get_update(s.drop_last(), i, t);
        assert(s.last().0@ != s[i].0@);
        assert(seq_get(u, s[i].0@) == seq_get(u.drop_last(), s[i].0@));
        assert forall|k: Seq<char>| k != s[i].0@ implies seq_get(u, k) == seq_get(s, k) by {
            if k == s.last().0@ {
                assert(seq_get(u, k) == Some(u.last().1));
                assert(seq_get(s, k) == Some(s.last().1));
            } else {
                assert(seq_get(u, k) == seq_get(u.drop_last(), k));
                assert(seq_get(s, k) == seq_get(s.drop_last(), k));
            }
        }
    }
}

/// The contribution of each included file, reduced to its extension key and
/// its line count.
pub open spec fn views_of(items: Seq<(String, u64)>) -> Seq<(Seq<char>, u64)> {
    items.map_values(|p: (String, u64)| (p.0@, p.1))
}

/// One included file folded into the abstract table: its bucket's file
/// counter grows by one and its bucket's line counter grows by `n`.
pub open spec fn touch(m: Map<Seq<char>, (int, int)>, e: Seq<char>, n: int) -> Map<
    Seq<char>,
    (int, int),
> {
    bump(bump(m, e, 1, 0), e, 0, n)
}

/// The abstract table after folding every contribution of `items`, in order.
pub open spec fn table_of(items: Seq<(Seq<char>, u64)>) -> Map<Seq<char>, (int, int)>
    decreases items.len(),
{
    if items.len() == 0 {
        Map::empty()
    } else {
        touch(table_of(items.drop_last()), items.last().0, items.last().1 as int)
    }
}

/// The sum of the line counts of all contributions of `items`.
pub open spec fn total_lines_of(items: Seq<(Seq<char>, u64)>) -> int
    decreases items.len(),
{
    if items.len() == 0 {
        0
    } else {
        total_lines_of(items.drop_last()) + items.last().1
    }
}

/// How many contributions of `items` carry the extension key `e`.
pub open spec fn files_with(items: Seq<(Seq<char>, u64)>, e: Seq<char>) -> int
    decreases items.len(),
{
    if items.len() == 0 {
        0
    } else {
        files_with(items.drop_last(), e) + if items.last().0 == e {
            1int
        } else {
            0int
        }
    }
}

/// The sum of the line counts of the contributions of `items` that carry the
/// extension key `e`.
pub open spec fn lines_with(items: Seq<(Seq<char>, u64)>, e: Seq<char>) -> int
    decreases items.len(),
{
    if items.len() == 0 {
        0
    } else {
        lines_with(items.drop_last(), e) + if items.last().0 == e {
            items.last().1 as int
        } else {
            0int
        }
    }
}

proof fn lemma_counts_nonneg(items: Seq<(Seq<char>, u64)>, e: Seq<char>)
    ensures
        files_with(items, e) >= 0,
        lines_with(items, e) >= 0,
        files_with(items, e) == 0 ==> lines_with(items, e) == 0,
    decreases items.len(),
{
    if items.len() > 0 {
        lemma_counts_nonneg(items.drop_last(), e);
    }
}

/// Every extension's bucket holds the number of included files with that
/// extension and the sum of their line counts; a bucket exists exactly when
/// some included file carried its key.
pub proof fn lemma_table_counts(items: Seq<(Seq<char>, u64)>, e: Seq<char>)
    ensures
        table_of(items).dom().contains(e) <==> files_with(items, e) > 0,
        files_with(items, e) > 0 ==> table_of(items)[e] == (
            files_with(items, e),
            lines_with(items, e),
        ),
    decreases items.len(),
{
    lemma_counts_nonneg(items, e);
    if items.len() > 0 {
        let dl = items.drop_last();
        lemma_table_counts(dl, e);
        lemma_counts_nonneg(dl, e);
    }
}

/// Folding two files into the table in either order gives the same table.
pub proof fn lemma_touch_commutes(
    m: Map<Seq<char>, (int, int)>,
    e1: Seq<char>,
    n1: int,
    e2: Seq<char>,
    n2: int,
)
    ensures
        touch(touch(m, e1, n1), e2, n2) == touch(touch(m, e2, n2), e1, n1),
{
    assert(touch(touch(m, e1, n1), e2, n2) =~= touch(touch(m, e2, n2), e1, n1));
}

/// Any one contribution can be folded in last: taking it out of the sequence
/// and touching the table with it afterwards gives the same table.
proof fn lemma_table_of_remove(items: Seq<(Seq<char>, u64)>, j: int)
    requires
        0 <= j < items.len(),
    ensures
        table_of(items) == touch(table_of(items.remove(j)), items[j].0, items[j].1 as int),
        total_lines_of(items) == total_lines_of(items.remove(j)) + items[j].1,
    decreases items.len(),
{
    if j == items.len() - 1 {
        assert(items.remove(j) =~= items.drop_last());
    } else {
        let dl = items.drop_last();
        let r = items.remove(j);
        assert(r.drop_last() =~= dl.remove(j));
        assert(r.last() == items.last());
        assert(dl[j] == items[j]);
        lemma_table_of_remove(dl, j);
        lemma_touch_commutes(
            table_of(dl.remove(j)),
            items[j].0,
            items[j].1 as int,
            items.last().0,
            items.last().1 as int,
        );
    }
}

/// The final totals do not depend on the order in which the included files
/// were encountered: any two traversals that yield the same files, however
/// arranged, fold to the same table and the same grand totals.
pub proof fn lemma_order_independent(a: Seq<(Seq<char>, u64)>, b: Seq<(Seq<char>, u64)>)
    requires
        a.to_multiset() == b.to_multiset(),
    ensures
        a.len() == b.len(),
        table_of(a) == table_of(b),
        total_lines_of(a) == total_lines_of(b),
    decreases a.len(),
{
    broadcast use vstd::seq_lib::group_to_multiset_ensures;

    assert(a.to_multiset().len() == a.len());
    assert(b.to_multiset().len() == b.len());
    if a.len() == 0 {
        assert(b.len() == 0);
    } else {
        let x = a.last();
        assert(a[a.len() - 1] == x);
        assert(a.contains(x));
        assert(b.to_multiset().count(x) > 0);
        assert(b.contains(x));
        let j = choose|j: int| 0 <= j < b.len() && b[j] == x;
        assert(a.remove(a.len() - 1) =~= a.drop_last());
        assert(a.drop_last().to_multiset() == a.to_multiset().remove(x));
        assert(b.remove(j).to_multiset() == b.to_multiset().remove(x));
        lemma_order_independent(a.drop_last(), b.remove(j));
        lemma_table_of_remove(b, j);
    }
}

proof fn lemma_total_lines_prefix(items: Seq<(Seq<char>, u64)>, j: int)
    requires
        0 <= j <= items.len(),
    ensures
        total_lines_of(items.take(j)) <= total_lines_of(items),
    decreases items.len() - j,
{
    if j == items.len() {
        assert(items.take(j) =~= items);
    } else {
        assert(items.take(j + 1).drop_last() =~= items.take(j));
        assert(items.take(j + 1).last() == items[j]);
        lemma_total_lines_prefix(items, j + 1);
    }
}

/// In a well-formed aggregator the grand total equals the sum over all
/// per-extension buckets.
pub proof fn lemma_grand_is_bucket_sum(a: Aggregator)
    requires
        a.wf(),
    ensures
        a.grand.files == sum_files(a.entries@),
        a.grand.lines == sum_lines(a.entries@),
{
}

/// Folds every contribution of `items` — one included file each, given as its
/// extension key and its line count — into a fresh aggregator, touching each
/// bucket once for the file and once for its lines.
///
/// The result's grand total counts all the files and all their lines, and its
/// table is the fold of the contributions.
pub fn aggregate_all(items: &Vec<(String, u64)>) -> (agg: Aggregator)
    requires
        total_lines_of(views_of(items@)) <= u64::MAX,
    ensures
        agg.wf(),
        agg.grand.files == items@.len(),
        agg.grand.lines == total_lines_of(views_of(items@)),
        agg.table() == table_of(views_of(items@)),
{
    let ghost m = views_of(items@);
    let mut agg = Aggregator::new();
    let mut i: usize = 0;
    proof {
        assert(m.take(0) =~= Seq::<(Seq<char>, u64)>::empty());
    }
    while i < items.len()
        invariant
            i <= items@.len(),
            m == views_of(items@),
            m.len() == items@.len(),
            total_lines_of(m) <= u64::MAX,
            agg.wf(),
            agg.grand.files == i,
            agg.grand.lines == total_lines_of(m.take(i as int)),
            agg.table() == table_of(m.take(i as int)),
        decreases items@.len() - i,
    {
        let p = &items[i];
        proof {
            assert(m[i as int] == (items@[i as int].0@, items@[i as int].1));
            assert(m.take(i + 1).drop_last() =~= m.take(i as int));
            assert(m.take(i + 1).last() == m[i as int]);
            lemma_total_lines_prefix(m, i + 1);
        }
        agg.record_file(&p.0);
        agg.record_lines(&p.0, p.1);
        proof {
            assert(agg.table() == table_of(m.take(i + 1)));
        }
        i = i + 1;
    }
    proof {
        assert(m.take(items@.len() as int) =~= m);
    }
    agg
}

} // verus!
