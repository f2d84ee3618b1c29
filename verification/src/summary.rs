//! The table summarizer: aggregates the live-file set into counts, totals
//! and a nearest-rank file-size distribution.
//!
//! Totals saturate at the integer bound instead of wrapping; the mean of
//! the size distribution is a fractional value and is left to the
//! renderer, which derives it from `total_size` and `num_files`.

use vstd::prelude::*;
use vstd::relations::{sorted_by, total_ordering};
use vstd::seq_lib::lemma_sorted_unique;
use vstd::multiset::Multiset;

use crate::action::FileAddV;
use crate::state::{deep_of, EntrySeq, LiveFileMap};

verus! {

/// The nearest-rank distribution of the live files' sizes.
#[derive(Debug, Clone, Copy, PartialEq, Eq, Structural)]
pub struct FileSizeStats {
    pub min: u64,
    pub p25: u64,
    pub median: u64,
    pub p75: u64,
    pub max: u64,
}

/// Aggregate view of one table's current state.
#[derive(Debug)]
pub struct TableSummary {
    pub path: String,
    pub num_files: u64,
    pub version: u64,
    pub last_modified: u64,
    pub total_rows: u64,
    pub total_size: u64,
    pub file_size_stats: Option<FileSizeStats>,
}

/// Ghost model of [`TableSummary`].
pub struct TableSummaryV {
    pub path: Seq<char>,
    pub num_files: u64,
    pub version: u64,
    pub last_modified: u64,
    pub total_rows: u64,
    pub total_size: u64,
    pub file_size_stats: Option<FileSizeStats>,
}

impl DeepView for TableSummary {
    type V = TableSummaryV;

    open spec fn deep_view(&self) -> TableSummaryV {
        TableSummaryV {
            path: self.path@,
            num_files: self.num_files,
            version: self.version,
            last_modified: self.last_modified,
            total_rows: self.total_rows,
            total_size: self.total_size,
            file_size_stats: self.file_size_stats,
        }
    }
}

/// Sum of the entries' record counts, saturating at the bound.
pub open spec fn spec_total_rows(s: EntrySeq) -> u64
    decreases s.len(),
{
    if s.len() == 0 {
        0u64
    } else {
        spec_total_rows(s.drop_last()).saturating_add(s.last().1.stats.num_records)
    }
}

/// Sum of the entries' file sizes, saturating at the bound.
pub open spec fn spec_total_size(s: EntrySeq) -> u64
    decreases s.len(),
{
    if s.len() == 0 {
        0u64
    } else {
        spec_total_size(s.drop_last()).saturating_add(s.last().1.size)
    }
}

/// Greatest modification time among the entries, or zero when empty.
pub open spec fn spec_last_modified(s: EntrySeq) -> u64
    decreases s.len(),
{
    if s.len() == 0 {
        0u64
    } else {
        let rest = spec_last_modified(s.drop_last());
        if s.last().1.modification_time > rest {
            s.last().1.modification_time
        } else {
            rest
        }
    }
}

/// The entries' file sizes, in entry order.
pub open spec fn sizes_of(s: EntrySeq) -> Seq<u64> {
    s.map_values(|e: (Seq<char>, FileAddV)| e.1.size)
}

/// The order that sorts the sizes.
pub open spec fn size_leq() -> spec_fn(u64, u64) -> bool {
    |a: u64, b: u64| a <= b
}

/// Nearest-rank index for percentile `p`, over `x = n - 1`: the quarter
/// indexes round `x/4` and `3x/4` half away from zero, the median rounds
/// `x/2` the same way. All three lie in `[0, x]`.
pub open spec fn rank_quarter(x: int) -> int {
    (x + 2) / 4
}

pub open spec fn rank_half(x: int) -> int {
    (x + 1) / 2
}

pub open spec fn rank_three_quarters(x: int) -> int {
    (3 * x + 2) / 4
}

/// The distribution read off a sorted, non-empty size sequence.
pub open spec fn spec_size_stats(sorted: Seq<u64>) -> FileSizeStats
    recommends
        sorted.len() > 0,
{
    let x = sorted.len() - 1;
    FileSizeStats {
        min: sorted[0],
        p25: sorted[rank_quarter(x)],
        median: sorted[rank_half(x)],
        p75: sorted[rank_three_quarters(x)],
        max: sorted[x],
    }
}

/// The whole summary, as a function of the table path, the resolved
/// version and the live-file entries.
pub open spec fn spec_summarize(path: Seq<char>, version: u64, s: EntrySeq) -> TableSummaryV {
    TableSummaryV {
        path,
        num_files: s.len() as u64,
        version,
        last_modified: spec_last_modified(s),
        total_rows: spec_total_rows(s),
        total_size: spec_total_size(s),
        file_size_stats: if s.len() > 0 {
            Some(spec_size_stats(sizes_of(s).sort_by(size_leq())))
        } else {
            None
        },
    }
}

/// Summarizing is a function of the reconstructed state alone: two
/// summaries taken of the same live-file entries, path and version are
/// identical. With no intervening writes the reconstructed entries are
/// unchanged, so repeated summarization cannot differ.
pub proof fn lemma_summarize_idempotent(
    path: Seq<char>,
    version: u64,
    s: EntrySeq,
    r1: TableSummaryV,
    r2: TableSummaryV,
)
    requires
        r1 == spec_summarize(path, version, s),
        r2 == spec_summarize(path, version, s),
    ensures
        r1 == r2,
{
}

/// Insert `x` into a sorted sequence, keeping it sorted.
pub open spec fn sorted_insert(s: Seq<u64>, x: u64) -> Seq<u64>
    decreases s.len(),
{
    if s.len() == 0 {
        seq![x]
    } else if x < s[0] {
        seq![x] + s
    } else {
        seq![s[0]] + sorted_insert(s.drop_first(), x)
    }
}

/// Where the scan of a sorted sequence stops, that is where the insert
/// lands.
proof fn lemma_sorted_insert_at(s: Seq<u64>, x: u64, j: int)
    requires
        0 <= j <= s.len(),
        forall|i: int| 0 <= i < j ==> s[i] <= x,
        j < s.len() ==> x < s[j],
    ensures
        sorted_insert(s, x) =~= s.insert(j, x),
    decreases s.len(),
{
    if s.len() == 0 {
    } else if x < s[0] {
        assert(j == 0);
    } else {
        assert(j >= 1);
        lemma_sorted_insert_at(s.drop_first(), x, j - 1);
        assert(sorted_insert(s, x) =~= seq![s[0]] + s.drop_first().insert(j - 1, x));
    }
}

proof fn lemma_sorted_insert_keeps_sorted(s: Seq<u64>, x: u64)
    requires
        sorted_by(s, size_leq()),
    ensures
        sorted_by(sorted_insert(s, x), size_leq()),
        sorted_insert(s, x).to_multiset() == s.to_multiset().insert(x),
        sorted_insert(s, x).len() == s.len() + 1,
    decreases s.len(),
{
    broadcast use vstd::seq_lib::group_to_multiset_ensures;

    if s.len() == 0 {
        assert(sorted_insert(s, x) =~= Seq::<u64>::empty().push(x));
        assert(sorted_insert(s, x).to_multiset() =~= s.to_multiset().insert(x));
    } else if x < s[0] {
        let t = seq![x] + s;
        assert forall|i: int, k: int| 0 <= i < k < t.len() implies size_leq()(t[i], t[k]) by {
            if i > 0 {
                assert(size_leq()(s[i - 1], s[k - 1]));
            } else {
                if k > 1 {
                    assert(size_leq()(s[0], s[k - 1]));
                }
            }
        }
        assert(t =~= s.insert(0, x));
        s.to_multiset_ensures();
        assert(t.to_multiset() =~= s.to_multiset().insert(x)) by {
            lemma_multiset_of_insert(s, 0, x);
        }
    } else {
        assert(sorted_by(s.drop_first(), size_leq()));
        lemma_sorted_insert_keeps_sorted(s.drop_first(), x);
        let r = sorted_insert(s.drop_first(), x);
        let t = seq![s[0]] + r;
        assert(sorted_insert(s, x) == t);
        assert forall|i: int, k: int| 0 <= i < k < t.len() implies size_leq()(t[i], t[k]) by {
            if i == 0 {
                assert(r.to_multiset().contains(t[k])) by {
                    assert(r[k - 1] == t[k]);
                }
                assert(r.to_multiset() == s.drop_first().to_multiset().insert(x));
                if t[k] == x {
                    assert(s[0] <= x);
                } else {
                    assert(s.drop_first().to_multiset().contains(t[k]));
                    assert(s.drop_first().contains(t[k]));
                    let w = choose|w: int|
                        0 <= w < s.drop_first().len() && s.drop_first()[w] == t[k];
                    assert(size_leq()(s[0], s[w + 1]));
                }
            } else {
                assert(size_leq()(r[i - 1], r[k - 1]));
            }
        }
        assert(t.to_multiset() =~= s.to_multiset().insert(x)) by {
            assert(t.to_multiset() =~= r.to_multiset().insert(s[0])) by {
                lemma_multiset_of_insert(r, 0, s[0]);
                assert(t =~= r.insert(0, s[0]));
            }
            assert(s.to_multiset() =~= s.drop_first().to_multiset().insert(s[0])) by {
                lemma_multiset_of_insert(s.drop_first(), 0, s[0]);
                assert(s =~= s.drop_first().insert(0, s[0]));
            }
        }
    }
}

/// Inserting into a sequence inserts into its multiset.
proof fn lemma_multiset_of_insert(s: Seq<u64>, j: int, x: u64)
    requires
        0 <= j <= s.len(),
    ensures
        s.insert(j, x).to_multiset() == s.to_multiset().insert(x),
    decreases s.len() - j,
{
    broadcast use vstd::seq_lib::group_to_multiset_ensures;

    if j == s.len() {
        assert(s.insert(j, x) =~= s.push(x));
    } else {
        lemma_multiset_of_insert(s, j + 1, x);
        let a = s.insert(j, x);
        let b = s.insert(j + 1, x);
        assert(a.remove(j) =~= s);
        assert(b.remove(j + 1) =~= s);
        assert(a.to_multiset().remove(x) =~= s.to_multiset()) by {
            a.to_multiset_ensures();
            assert(a[j] == x);
        }
        assert(b.to_multiset().remove(x) =~= s.to_multiset()) by {
            b.to_multiset_ensures();
            assert(b[j + 1] == x);
        }
        assert(a.to_multiset().contains(x)) by {
            a.to_multiset_ensures();
            assert(a[j] == x);
            assert(a.contains(x));
        }
        assert(b.to_multiset().contains(x)) by {
            b.to_multiset_ensures();
            assert(b[j + 1] == x);
            assert(b.contains(x));
        }
        assert(a.to_multiset() =~= b.to_multiset()) by {
            assert(a.to_multiset() =~= a.to_multiset().remove(x).insert(x));
            assert(b.to_multiset() =~= b.to_multiset().remove(x).insert(x));
        }
        assert(b.to_multiset() == s.to_multiset().insert(x));
    }
}

/// Sort the sizes ascending; the result is the sorted permutation of the
/// input.
pub fn sort_sizes(v: Vec<u64>) -> (r: Vec<u64>)
    ensures
        r@ == v@.sort_by(size_leq()),
        r.len() == v.len(),
{
    proof {
        v@.lemma_sort_by_ensures(size_leq());
        assert(total_ordering(size_leq()));
    }
    let mut out: Vec<u64> = Vec::new();
    proof {
        assert(v@.subrange(0, 0) =~= Seq::<u64>::empty());
        assert(v@.subrange(0, 0).to_multiset() =~= Multiset::empty()) by {
            broadcast use vstd::seq_lib::group_to_multiset_ensures;

        }
    }
    let n = v.len();
    for i in 0..n
        invariant
            n == v.len(),
            sorted_by(out@, size_leq()),
            out@.to_multiset() == v@.subrange(0, i as int).to_multiset(),
            out@.len() == i,
    {
        let x = v[i];
        let ghost s0 = out@;
        let mut j: usize = 0;
        let m_len = out.len();
        while j < m_len && out[j] <= x
            invariant
                m_len == out@.len(),
                out@ == s0,
                j <= m_len,
                forall|k: int| 0 <= k < j ==> s0[k] <= x,
            decreases m_len - j,
        {
            j = j + 1;
        }
        assert(j < s0.len() ==> x < s0[j as int]);
        out.insert(j, x);
        proof {
            lemma_sorted_insert_at(s0, x, j as int);
            lemma_sorted_insert_keeps_sorted(s0, x);
            assert(out@ == sorted_insert(s0, x));
            broadcast use vstd::seq_lib::group_to_multiset_ensures;

            assert(v@.subrange(0, i as int + 1).drop_last() =~= v@.subrange(0, i as int));
            assert(v@.subrange(0, i as int + 1).to_multiset() =~= v@.subrange(
                0,
                i as int,
            ).to_multiset().insert(v@[i as int])) by {
                let pre = v@.subrange(0, i as int + 1);
                assert(pre =~= v@.subrange(0, i as int).push(v@[i as int]));
            }
        }
    }
    proof {
        assert(v@.subrange(0, n as int) =~= v@);
        lemma_sorted_unique(out@, v@.sort_by(size_leq()), size_leq());
    }
    out
}

/// Aggregate the live-file map into a summary for the given table path
/// and resolved version.
pub fn summarize_map(path: String, version: u64, map: &LiveFileMap) -> (r: TableSummary)
    ensures
        r.deep_view() == spec_summarize(path@, version, map.entry_seq()),
{
    broadcast use crate::state::lemma_deep_of, crate::state::lemma_vec_deep_view;

    let entries = map.entries();
    let ghost sv = map.entry_seq();
    let n = entries.len();
    let mut total_rows: u64 = 0;
    let mut total_size: u64 = 0;
    let mut last_modified: u64 = 0;
    let mut sizes: Vec<u64> = Vec::new();
    proof {
        assert(sv.subrange(0, 0) =~= Seq::<(Seq<char>, FileAddV)>::empty());
    }
    for i in 0..n
        invariant
            n == entries.len(),
            n == sv.len(),
            entries.deep_view() == sv,
            total_rows == spec_total_rows(sv.subrange(0, i as int)),
            total_size == spec_total_size(sv.subrange(0, i as int)),
            last_modified == spec_last_modified(sv.subrange(0, i as int)),
            sizes@ =~= sizes_of(sv).subrange(0, i as int),
            sizes@.len() == i,
    {
        let e = &entries[i];
        proof {
            assert(deep_of(entries@)[i as int] == entries@[i as int].deep_view());
            assert(sv[i as int] == entries@[i as int].deep_view());
        }
        total_rows = total_rows.saturating_add(e.1.stats.num_records);
        total_size = total_size.saturating_add(e.1.size);
        if e.1.modification_time > last_modified {
            last_modified = e.1.modification_time;
        }
        sizes.push(e.1.size);
        proof {
            let pre = sv.subrange(0, i as int);
            let post = sv.subrange(0, i as int + 1);
            assert(post.drop_last() =~= pre);
            assert(post.last() == sv[i as int]);
            assert(sizes_of(sv)[i as int] == sv[i as int].1.size);
            assert(sizes@ =~= sizes_of(sv).subrange(0, i as int + 1));
        }
    }
    proof {
        assert(sv.subrange(0, n as int) =~= sv);
        assert(sizes_of(sv).subrange(0, n as int) =~= sizes_of(sv));
    }
    let file_size_stats = if n > 0 {
        let sorted = sort_sizes(sizes);
        let x = n - 1;
        let q1 = (((x as u128) + 2) / 4) as usize;
        let q2 = (((x as u128) + 1) / 2) as usize;
        let q3 = ((3 * (x as u128) + 2) / 4) as usize;
        proof {
            sizes_of(sv).lemma_sort_by_ensures(size_leq());
            assert(sorted@.len() == n);
            assert(q1 == rank_quarter(x as int));
            assert(q2 == rank_half(x as int));
            assert(q3 == rank_three_quarters(x as int));
            assert(0 <= rank_quarter(x as int) <= x as int);
            assert(0 <= rank_half(x as int) <= x as int);
            assert(0 <= rank_three_quarters(x as int) <= x as int);
        }
        Some(
            FileSizeStats {
                min: sorted[0],
                p25: sorted[q1],
                median: sorted[q2],
                p75: sorted[q3],
                max: sorted[x],
            },
        )
    } else {
        None
    };
    let r = TableSummary {
        path,
        num_files: n as u64,
        version,
        last_modified,
        total_rows,
        total_size,
        file_size_stats,
    };
    r
}

} // verus!
