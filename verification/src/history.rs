//! The history aggregator: per log version, row and byte deltas with
//! signed running totals, folded in strict ascending version order and
//! reported most recent first.
//!
//! The running totals are signed on purpose: a log whose baseline
//! predates the observed window can remove more bytes than it added, so
//! negative totals are valid, not an error. Totals saturate at the
//! integer bounds instead of wrapping.

use vstd::prelude::*;
use vstd::relations::sorted_by;

use crate::action::{
    CommitInfoV, FileAddV, FileRemoveV, OperationMetrics, OperationMetricsV, TransactionLog,
    TransactionLogV,
};

verus! {

/// One history entry: the deltas of one commit and the running totals up
/// to and including it.
#[derive(Debug)]
pub struct OperationRecord {
    pub version: u64,
    pub timestamp: u64,
    pub operation: String,
    pub rows_added: Option<u64>,
    pub rows_deleted: Option<u64>,
    pub rows_copied: Option<u64>,
    pub files_added: Option<u64>,
    pub files_removed: Option<u64>,
    pub bytes_added: u64,
    pub bytes_removed: u64,
    pub total_rows: i64,
    pub total_bytes: i64,
}

/// Ghost model of [`OperationRecord`].
pub struct OperationRecordV {
    pub version: u64,
    pub timestamp: u64,
    pub operation: Seq<char>,
    pub rows_added: Option<u64>,
    pub rows_deleted: Option<u64>,
    pub rows_copied: Option<u64>,
    pub files_added: Option<u64>,
    pub files_removed: Option<u64>,
    pub bytes_added: u64,
    pub bytes_removed: u64,
    pub total_rows: i64,
    pub total_bytes: i64,
}

impl DeepView for OperationRecord {
    type V = OperationRecordV;

    open spec fn deep_view(&self) -> OperationRecordV {
        OperationRecordV {
            version: self.version,
            timestamp: self.timestamp,
            operation: self.operation@,
            rows_added: self.rows_added,
            rows_deleted: self.rows_deleted,
            rows_copied: self.rows_copied,
            files_added: self.files_added,
            files_removed: self.files_removed,
            bytes_added: self.bytes_added,
            bytes_removed: self.bytes_removed,
            total_rows: self.total_rows,
            total_bytes: self.total_bytes,
        }
    }
}

/// One table's history, most recent operation first.
#[derive(Debug)]
pub struct TableHistory {
    pub path: String,
    pub operations: Vec<OperationRecord>,
}

/// Ghost model of [`TableHistory`].
pub struct TableHistoryV {
    pub path: Seq<char>,
    pub operations: Seq<OperationRecordV>,
}

impl DeepView for TableHistory {
    type V = TableHistoryV;

    open spec fn deep_view(&self) -> TableHistoryV {
        TableHistoryV { path: self.path@, operations: self.operations.deep_view() }
    }
}

/// Clamp a mathematical integer into the signed 64-bit range.
pub open spec fn sat_i64(x: int) -> i64 {
    if x > i64::MAX {
        i64::MAX
    } else if x < i64::MIN {
        i64::MIN
    } else {
        x as i64
    }
}

/// Sum of one file's added sizes, saturating at the bound.
pub open spec fn spec_bytes_added(adds: Seq<FileAddV>) -> u64
    decreases adds.len(),
{
    if adds.len() == 0 {
        0u64
    } else {
        spec_bytes_added(adds.drop_last()).saturating_add(adds.last().size)
    }
}

/// Sum of one file's removed sizes, saturating at the bound.
pub open spec fn spec_bytes_removed(removes: Seq<FileRemoveV>) -> u64
    decreases removes.len(),
{
    if removes.len() == 0 {
        0u64
    } else {
        spec_bytes_removed(removes.drop_last()).saturating_add(removes.last().size)
    }
}

/// The counters each metrics shape populates: rows added, rows deleted,
/// rows copied, files added, files removed.
pub open spec fn spec_deltas(m: OperationMetricsV) -> (
    Option<u64>,
    Option<u64>,
    Option<u64>,
    Option<u64>,
    Option<u64>,
) {
    match m {
        OperationMetricsV::Add(w) => (
            Some(w.num_added_rows),
            None,
            None,
            Some(w.num_added_files as u64),
            Some(w.num_removed_files as u64),
        ),
        OperationMetricsV::Remove(d) => (
            None,
            Some(d.num_deleted_rows),
            Some(d.num_copied_rows),
            Some(d.num_added_files as u64),
            Some(d.num_removed_files as u64),
        ),
        OperationMetricsV::Optimize(o) => (
            None,
            None,
            None,
            Some(o.num_files_added as u64),
            Some(o.num_files_removed as u64),
        ),
        OperationMetricsV::VacuumStart(_) => (None, None, None, None, None),
        OperationMetricsV::VacuumEnd(v) => (
            None,
            None,
            None,
            None,
            Some(v.num_deleted_files as u64),
        ),
    }
}

/// The history entry of one commit, given the running totals before it.
pub open spec fn spec_operation_record(
    version: u64,
    r: TransactionLogV,
    ci: CommitInfoV,
    rows_before: i64,
    bytes_before: i64,
) -> OperationRecordV {
    let d = spec_deltas(ci.operation_metrics);
    let ba = spec_bytes_added(r.adds);
    let br = spec_bytes_removed(r.removes);
    OperationRecordV {
        version,
        timestamp: ci.timestamp,
        operation: ci.operation,
        rows_added: d.0,
        rows_deleted: d.1,
        rows_copied: d.2,
        files_added: d.3,
        files_removed: d.4,
        bytes_added: ba,
        bytes_removed: br,
        total_rows: sat_i64(
            rows_before + (if d.0 is Some {
                d.0->0 as int
            } else {
                0
            }) - (if d.1 is Some {
                d.1->0 as int
            } else {
                0
            }),
        ),
        total_bytes: sat_i64(bytes_before + ba - br),
    }
}

/// The ascending-order fold: files without commit metadata contribute no
/// entry; each commit extends the running totals.
pub open spec fn spec_history_fold(
    files: Seq<(u64, TransactionLogV)>,
    rows: i64,
    bytes: i64,
) -> Seq<OperationRecordV>
    decreases files.len(),
{
    if files.len() == 0 {
        Seq::empty()
    } else {
        match files[0].1.commit_info {
            None => spec_history_fold(files.drop_first(), rows, bytes),
            Some(ci) => {
                let rec = spec_operation_record(files[0].0, files[0].1, ci, rows, bytes);
                seq![rec] + spec_history_fold(files.drop_first(), rec.total_rows, rec.total_bytes)
            },
        }
    }
}

/// Stable insertion by version: an incoming file goes after every file
/// with the same or a smaller version.
pub open spec fn sorted_insert_version(
    s: Seq<(u64, TransactionLogV)>,
    x: (u64, TransactionLogV),
) -> Seq<(u64, TransactionLogV)>
    decreases s.len(),
{
    if s.len() == 0 {
        seq![x]
    } else if x.0 < s[0].0 {
        seq![x] + s
    } else {
        seq![s[0]] + sorted_insert_version(s.drop_first(), x)
    }
}

/// Stable sort of versioned files, ascending by version, keeping the
/// arrival order of equal versions.
pub open spec fn spec_sort_by_version(s: Seq<(u64, TransactionLogV)>) -> Seq<
    (u64, TransactionLogV),
>
    decreases s.len(),
{
    if s.len() == 0 {
        Seq::empty()
    } else {
        sorted_insert_version(spec_sort_by_version(s.drop_last()), s.last())
    }
}

/// The order on versioned files.
pub open spec fn version_leq() -> spec_fn((u64, TransactionLogV), (u64, TransactionLogV)) -> bool {
    |a: (u64, TransactionLogV), b: (u64, TransactionLogV)| a.0 <= b.0
}

proof fn lemma_sorted_insert_version_sorted(s: Seq<(u64, TransactionLogV)>, x: (u64, TransactionLogV))
    requires
        sorted_by(s, version_leq()),
    ensures
        sorted_by(sorted_insert_version(s, x), version_leq()),
        sorted_insert_version(s, x).len() == s.len() + 1,
        sorted_insert_version(s, x)[0] == (if s.len() == 0 || x.0 < s[0].0 {
            x
        } else {
            s[0]
        }),
    decreases s.len(),
{
    if s.len() == 0 {
    } else if x.0 < s[0].0 {
        let t = seq![x] + s;
        assert forall|i: int, k: int| 0 <= i < k < t.len() implies version_leq()(t[i], t[k]) by {
            if i > 0 {
                assert(version_leq()(s[i - 1], s[k - 1]));
            } else {
                if k > 1 {
                    assert(version_leq()(s[0], s[k - 1]));
                }
            }
        }
    } else {
        assert(sorted_by(s.drop_first(), version_leq()));
        lemma_sorted_insert_version_sorted(s.drop_first(), x);
        let r = sorted_insert_version(s.drop_first(), x);
        let t = seq![s[0]] + r;
        assert forall|i: int, k: int| 0 <= i < k < t.len() implies version_leq()(t[i], t[k]) by {
            if i == 0 {
                if s.drop_first().len() == 0 || x.0 < s.drop_first()[0].0 {
                    assert(r[0] == x);
                    assert(s[0].0 <= x.0);
                } else {
                    assert(r[0] == s.drop_first()[0]);
                    assert(version_leq()(s[0], s[1]));
                }
                assert(s[0].0 <= r[0].0);
                if k >= 2 {
                    assert(version_leq()(r[0], r[k - 1]));
                }
            } else {
                assert(version_leq()(r[i - 1], r[k - 1]));
            }
        }
    }
}

/// The stable sort really sorts.
pub proof fn lemma_spec_sort_by_version_sorted(s: Seq<(u64, TransactionLogV)>)
    ensures
        sorted_by(spec_sort_by_version(s), version_leq()),
        spec_sort_by_version(s).len() == s.len(),
    decreases s.len(),
{
    if s.len() > 0 {
        lemma_spec_sort_by_version_sorted(s.drop_last());
        lemma_sorted_insert_version_sorted(spec_sort_by_version(s.drop_last()), s.last());
    }
}

proof fn lemma_sorted_insert_version_at(
    s: Seq<(u64, TransactionLogV)>,
    x: (u64, TransactionLogV),
    j: int,
)
    requires
        0 <= j <= s.len(),
        forall|i: int| 0 <= i < j ==> s[i].0 <= x.0,
        j < s.len() ==> x.0 < s[j].0,
    ensures
        sorted_insert_version(s, x) =~= s.insert(j, x),
    decreases s.len(),
{
    if s.len() == 0 {
    } else if x.0 < s[0].0 {
        assert(j == 0);
    } else {
        assert(j >= 1);
        lemma_sorted_insert_version_at(s.drop_first(), x, j - 1);
        assert(sorted_insert_version(s, x) =~= seq![s[0]] + s.drop_first().insert(j - 1, x));
    }
}

/// Sort versioned files ascending by version; files of equal version
/// keep their arrival order.
pub fn sort_files_by_version(files: Vec<(u64, TransactionLog)>) -> (r: Vec<(u64, TransactionLog)>)
    ensures
        crate::state::deep_of(r@) == spec_sort_by_version(crate::state::deep_of(files@)),
{
    broadcast use crate::state::lemma_deep_of, crate::state::lemma_vec_deep_view;

    let ghost fv = crate::state::deep_of(files@);
    let mut out: Vec<(u64, TransactionLog)> = Vec::new();
    proof {
        assert(fv.subrange(0, 0) =~= Seq::<(u64, TransactionLogV)>::empty());
        assert(crate::state::deep_of(out@) =~= Seq::<(u64, TransactionLogV)>::empty());
    }
    let n = files.len();
    let mut idx: usize = 0;
    let mut rest = files;
    while idx < n
        invariant
            n == fv.len(),
            idx <= n,
            crate::state::deep_of(rest@) =~= fv.subrange(idx as int, n as int),
            crate::state::deep_of(out@) == spec_sort_by_version(fv.subrange(0, idx as int)),
        decreases n - idx,
    {
        let ghost prev = rest@;
        let x = rest.remove(0);
        proof {
            prev.remove_ensures(0int);
            assert(crate::state::deep_of(prev)[0] == prev[0].deep_view());
            assert(x.deep_view() == fv[idx as int]);
            assert forall|j: int| 0 <= j < rest@.len() implies crate::state::deep_of(rest@)[j]
                == fv.subrange(idx as int + 1, n as int)[j] by {
                assert(rest@[j] == prev[j + 1]);
                assert(crate::state::deep_of(prev)[j + 1] == prev[j + 1].deep_view());
            }
            assert(crate::state::deep_of(rest@) =~= fv.subrange(idx as int + 1, n as int));
        }
        let ghost s0 = crate::state::deep_of(out@);
        let key = x.0;
        let mut j: usize = 0;
        let m_len = out.len();
        while j < m_len && out[j].0 <= key
            invariant
                m_len == out@.len(),
                crate::state::deep_of(out@) == s0,
                m_len == s0.len(),
                j <= m_len,
                forall|k: int| 0 <= k < j ==> s0[k].0 <= key,
            decreases m_len - j,
        {
            proof {
                assert(crate::state::deep_of(out@)[j as int] == out@[j as int].deep_view());
            }
            j = j + 1;
        }
        proof {
            assert(j < m_len ==> out@[j as int].deep_view() == s0[j as int]);
        }
        let ghost xv = x.deep_view();
        out.insert(j, x);
        proof {
            assert forall|k: int| 0 <= k < out@.len() implies crate::state::deep_of(out@)[k]
                == s0.insert(j as int, xv)[k] by {
                if k < j as int {
                    assert(out@[k].deep_view() == s0[k]);
                } else if k == j as int {
                    assert(out@[k] == prev[0]);
                } else {
                    assert(out@[k].deep_view() == s0[k - 1]);
                }
            }
            assert(crate::state::deep_of(out@) =~= s0.insert(j as int, xv));
            lemma_sorted_insert_version_at(s0, xv, j as int);
            let pre = fv.subrange(0, idx as int);
            let post = fv.subrange(0, idx as int + 1);
            assert(post.drop_last() =~= pre);
            assert(post.last() == fv[idx as int]);
        }
        idx = idx + 1;
    }
    proof {
        assert(fv.subrange(0, n as int) =~= fv);
    }
    out
}

/// Build one table's history: sort ascending by version, fold the
/// running totals over the files that carry commit metadata, then report
/// most recent first, truncated to `limit` entries if one is given.
pub fn build_history(path: String, files: Vec<(u64, TransactionLog)>, limit: Option<usize>) -> (r:
    TableHistory)
    ensures
        r.deep_view().path == path@,
        r.deep_view().operations == {
            let asc = spec_history_fold(
                spec_sort_by_version(crate::state::deep_of(files@)),
                0i64,
                0i64,
            );
            match limit {
                Some(l) => asc.reverse().take(vstd::math::min(l as int, asc.len() as int)),
                None => asc.reverse(),
            }
        },
{
    broadcast use crate::state::lemma_deep_of, crate::state::lemma_vec_deep_view;

    let sorted = sort_files_by_version(files);
    let ghost sv = crate::state::deep_of(sorted@);
    let mut asc: Vec<OperationRecord> = Vec::new();
    let mut rows: i64 = 0;
    let mut bytes: i64 = 0;
    proof {
        assert(sv.skip(0) =~= sv);
        assert(crate::state::deep_of(asc@) =~= Seq::<OperationRecordV>::empty());
    }
    let n = sorted.len();
    let mut idx: usize = 0;
    let mut rest = sorted;
    while idx < n
        invariant
            n == sv.len(),
            idx <= n,
            crate::state::deep_of(rest@) =~= sv.skip(idx as int),
            spec_history_fold(sv, 0i64, 0i64) == crate::state::deep_of(asc@)
                + spec_history_fold(sv.skip(idx as int), rows, bytes),
        decreases n - idx,
    {
        let ghost prev = rest@;
        let (version, record) = rest.remove(0);
        proof {
            prev.remove_ensures(0int);
            assert(crate::state::deep_of(prev)[0] == prev[0].deep_view());
            assert(prev[0].deep_view() == sv.skip(idx as int)[0]);
            assert(sv.skip(idx as int)[0] == sv[idx as int]);
            assert forall|j: int| 0 <= j < rest@.len() implies crate::state::deep_of(rest@)[j]
                == sv.skip(idx as int + 1)[j] by {
                assert(rest@[j] == prev[j + 1]);
                assert(crate::state::deep_of(prev)[j + 1] == prev[j + 1].deep_view());
            }
            assert(crate::state::deep_of(rest@) =~= sv.skip(idx as int + 1));
            assert(sv.skip(idx as int).drop_first() =~= sv.skip(idx as int + 1));
        }
        let ghost rv = sv[idx as int].1;
        match record.commit_info {
            None => {
                proof {
                    assert(rv.commit_info is None);
                }
            },
            Some(ci) => {
                let ghost civ = rv.commit_info->0;
                let bytes_added = sum_add_sizes(&record.adds);
                let bytes_removed = sum_remove_sizes(&record.removes);
                proof {
                    assert(record.adds.deep_view() == rv.adds);
                    assert(record.removes.deep_view() == rv.removes);
                }
                let (rows_added, rows_deleted, rows_copied, files_added, files_removed) =
                    match &ci.operation_metrics {
                    OperationMetrics::Add(w) => (
                        Some(w.num_added_rows),
                        None,
                        None,
                        Some(w.num_added_files as u64),
                        Some(w.num_removed_files as u64),
                    ),
                    OperationMetrics::Remove(d) => (
                        None,
                        Some(d.num_deleted_rows),
                        Some(d.num_copied_rows),
                        Some(d.num_added_files as u64),
                        Some(d.num_removed_files as u64),
                    ),
                    OperationMetrics::Optimize(o) => (
                        None,
                        None,
                        None,
                        Some(o.num_files_added as u64),
                        Some(o.num_files_removed as u64),
                    ),
                    OperationMetrics::VacuumStart(_) => (None, None, None, None, None),
                    OperationMetrics::VacuumEnd(v) => (
                        None,
                        None,
                        None,
                        None,
                        Some(v.num_deleted_files as u64),
                    ),
                };
                let ra_i: i128 = match rows_added {
                    Some(v) => v as i128,
                    None => 0,
                };
                let rd_i: i128 = match rows_deleted {
                    Some(v) => v as i128,
                    None => 0,
                };
                let new_rows_wide: i128 = rows as i128 + ra_i - rd_i;
                let new_rows: i64 = clamp_i64(new_rows_wide);
                let new_bytes_wide: i128 = bytes as i128 + bytes_added as i128
                    - bytes_removed as i128;
                let new_bytes: i64 = clamp_i64(new_bytes_wide);
                let rec = OperationRecord {
                    version,
                    timestamp: ci.timestamp,
                    operation: ci.operation,
                    rows_added,
                    rows_deleted,
                    rows_copied,
                    files_added,
                    files_removed,
                    bytes_added,
                    bytes_removed,
                    total_rows: new_rows,
                    total_bytes: new_bytes,
                };
                proof {
                    assert(rec.deep_view() == spec_operation_record(
                        sv[idx as int].0,
                        rv,
                        civ,
                        rows,
                        bytes,
                    ));
                }
                let ghost asc_pre = crate::state::deep_of(asc@);
                let ghost recv = rec.deep_view();
                asc.push(rec);
                proof {
                    assert(crate::state::deep_of(asc@) =~= asc_pre.push(recv));
                    assert(asc_pre.push(recv) =~= asc_pre + seq![recv]);
                }
                rows = new_rows;
                bytes = new_bytes;
            },
        }
        idx = idx + 1;
    }
    proof {
        assert(sv.skip(n as int).len() == 0);
        assert(crate::state::deep_of(asc@) + Seq::<OperationRecordV>::empty() =~= crate::state::deep_of(
            asc@,
        ));
        assert(crate::state::deep_of(asc@) == spec_history_fold(sv, 0i64, 0i64));
    }
    let ghost asc_v = crate::state::deep_of(asc@);
    let mut ops: Vec<OperationRecord> = Vec::new();
    proof {
        assert(crate::state::deep_of(ops@) =~= Seq::<OperationRecordV>::empty());
    }
    let mut rest_asc = asc;
    while rest_asc.len() > 0
        invariant
            rest_asc@.len() <= asc_v.len(),
            crate::state::deep_of(rest_asc@) =~= asc_v.take(rest_asc@.len() as int),
            crate::state::deep_of(ops@) =~= asc_v.skip(rest_asc@.len() as int).reverse(),
        decreases rest_asc.len(),
    {
        let ghost prev = rest_asc@;
        let ghost k = prev.len() - 1;
        let last = rest_asc.pop().unwrap();
        proof {
            assert(last.deep_view() == crate::state::deep_of(prev)[k]);
            assert(crate::state::deep_of(prev)[k] == asc_v.take(k + 1)[k]);
            assert forall|j: int| 0 <= j < rest_asc@.len() implies crate::state::deep_of(
                rest_asc@,
            )[j] == asc_v.take(k)[j] by {
                assert(rest_asc@[j] == prev[j]);
                assert(crate::state::deep_of(prev)[j] == prev[j].deep_view());
            }
            assert(crate::state::deep_of(rest_asc@) =~= asc_v.take(k));
        }
        let ghost ops_pre = crate::state::deep_of(ops@);
        let ghost lastv = last.deep_view();
        ops.push(last);
        proof {
            assert(crate::state::deep_of(ops@) =~= ops_pre.push(lastv));
            assert(ops_pre.push(lastv) =~= asc_v.skip(k).reverse()) by {
                assert(asc_v.skip(k) =~= seq![asc_v[k]] + asc_v.skip(k + 1));
                assert(asc_v.skip(k).reverse() =~= asc_v.skip(k + 1).reverse().push(asc_v[k]));
            }
        }
    }
    proof {
        assert(asc_v.skip(0) =~= asc_v);
        assert(crate::state::deep_of(ops@) =~= asc_v.reverse());
    }
    if let Some(l) = limit {
        let keep: usize = if l < ops.len() {
            l
        } else {
            ops.len()
        };
        ops.truncate(keep);
        proof {
            assert(crate::state::deep_of(ops@) =~= asc_v.reverse().take(
                vstd::math::min(l as int, asc_v.len() as int),
            )) by {
                assert(ops@.len() == vstd::math::min(l as int, asc_v.len() as int));
                assert forall|j: int| 0 <= j < ops@.len() implies crate::state::deep_of(ops@)[j]
                    == asc_v.reverse().take(vstd::math::min(l as int, asc_v.len() as int))[j] by {
                }
            }
        }
    }
    let r = TableHistory { path, operations: ops };
    proof {
        assert(r.deep_view().operations == crate::state::deep_of(ops@));
    }
    r
}

/// Clamp a wide intermediate into the signed 64-bit range.
fn clamp_i64(x: i128) -> (r: i64)
    ensures
        r == sat_i64(x as int),
{
    if x > i64::MAX as i128 {
        i64::MAX
    } else if x < i64::MIN as i128 {
        i64::MIN
    } else {
        x as i64
    }
}

/// Sum of added sizes, saturating.
fn sum_add_sizes(adds: &Vec<crate::action::FileAdd>) -> (r: u64)
    ensures
        r == spec_bytes_added(adds.deep_view()),
{
    broadcast use crate::state::lemma_deep_of, crate::state::lemma_vec_deep_view;

    let ghost av = adds.deep_view();
    let mut total: u64 = 0;
    proof {
        assert(av.subrange(0, 0) =~= Seq::<FileAddV>::empty());
    }
    let n = adds.len();
    for i in 0..n
        invariant
            n == adds.len(),
            n == av.len(),
            total == spec_bytes_added(av.subrange(0, i as int)),
    {
        proof {
            assert(crate::state::deep_of(adds@)[i as int] == adds@[i as int].deep_view());
        }
        total = total.saturating_add(adds[i].size);
        proof {
            let pre = av.subrange(0, i as int);
            let post = av.subrange(0, i as int + 1);
            assert(post.drop_last() =~= pre);
            assert(post.last() == av[i as int]);
        }
    }
    proof {
        assert(av.subrange(0, n as int) =~= av);
    }
    total
}

/// Sum of removed sizes, saturating.
fn sum_remove_sizes(removes: &Vec<crate::action::FileRemove>) -> (r: u64)
    ensures
        r == spec_bytes_removed(removes.deep_view()),
{
    broadcast use crate::state::lemma_deep_of, crate::state::lemma_vec_deep_view;

    let ghost rv = removes.deep_view();
    let mut total: u64 = 0;
    proof {
        assert(rv.subrange(0, 0) =~= Seq::<FileRemoveV>::empty());
    }
    let n = removes.len();
    for i in 0..n
        invariant
            n == removes.len(),
            n == rv.len(),
            total == spec_bytes_removed(rv.subrange(0, i as int)),
    {
        proof {
            assert(crate::state::deep_of(removes@)[i as int] == removes@[i as int].deep_view());
        }
        total = total.saturating_add(removes[i].size);
        proof {
            let pre = rv.subrange(0, i as int);
            let post = rv.subrange(0, i as int + 1);
            assert(post.drop_last() =~= pre);
            assert(post.last() == rv[i as int]);
        }
    }
    proof {
        assert(rv.subrange(0, n as int) =~= rv);
    }
    total
}

} // verus!
