//! The engine's table-level entry points: reconstruct a table's current
//! state from its log directory, summarize it, derive its history, and
//! the paginated many-table variants over a directory tree.

use vstd::prelude::*;

use crate::action::{TransactionLog, TransactionLogV};
use crate::checkpoint::spec_checkpoint_outcome;
use crate::fsmodel::{FileData, FsDir, FsDirV, FsFileV};
use crate::history::{build_history, TableHistory};
use crate::locate::{budget_model, find_log_dirs, spec_locate};
use crate::numerals::{file_version, is_json_name, spec_file_version, spec_is_json_name};
use crate::state::{deep_of, spec_merge, EntrySeq, LiveFileMap};
use crate::summary::{spec_summarize, summarize_map, TableSummary, TableSummaryV};

verus! {

/// Is a log file eligible for replay over a checkpoint at `cp`? Only
/// files named `<stem>.json` are considered; one whose stem is no
/// parseable number is kept, conservatively.
pub open spec fn spec_eligible(name: Seq<char>, cp: u64) -> bool {
    spec_is_json_name(name) && match spec_file_version(name) {
        None => true,
        Some(v) => v > cp,
    }
}

/// The resolved current version: the greatest numeric stem among the
/// eligible files, or the checkpoint version if none carries one.
pub open spec fn spec_resolved_version(files: Seq<FsFileV>, cp: u64) -> u64
    decreases files.len(),
{
    if files.len() == 0 {
        cp
    } else {
        let rest = spec_resolved_version(files.drop_last(), cp);
        let name = files.last().name;
        if spec_eligible(name, cp) && spec_file_version(name) is Some && spec_file_version(
            name,
        )->0 > rest {
            spec_file_version(name)->0
        } else {
            rest
        }
    }
}

/// The resolved version is the checkpoint version or an eligible stem,
/// never below the checkpoint version, and at least every eligible stem.
pub proof fn lemma_resolved_version_bounds(files: Seq<FsFileV>, cp: u64)
    ensures
        spec_resolved_version(files, cp) >= cp,
        spec_resolved_version(files, cp) == cp || exists|i: int|
            0 <= i < files.len() && spec_eligible(files[i].name, cp) && spec_file_version(
                files[i].name,
            ) == Some(spec_resolved_version(files, cp)),
        forall|i: int|
            0 <= i < files.len() && spec_eligible(files[i].name, cp) && spec_file_version(
                files[i].name,
            ) is Some ==> spec_resolved_version(files, cp) >= spec_file_version(files[i].name)->0,
    decreases files.len(),
{
    if files.len() > 0 {
        lemma_resolved_version_bounds(files.drop_last(), cp);
        let rest = spec_resolved_version(files.drop_last(), cp);
        let v = spec_resolved_version(files, cp);
        if v != cp {
            if v == rest {
                let w = choose|w: int|
                    0 <= w < files.drop_last().len() && spec_eligible(
                        files.drop_last()[w].name,
                        cp,
                    ) && spec_file_version(files.drop_last()[w].name) == Some(rest);
                assert(files[w] == files.drop_last()[w]);
            }
        }
        assert forall|i: int|
            0 <= i < files.len() && spec_eligible(files[i].name, cp) && spec_file_version(
                files[i].name,
            ) is Some implies v >= spec_file_version(files[i].name)->0 by {
            if i < files.len() - 1 {
                assert(files.drop_last()[i] == files[i]);
            }
        }
    }
}

/// The record one file contributes to the merge: the parse of its lines,
/// for an eligible text file whose parse succeeds; nothing otherwise —
/// parse failures are skipped, not propagated.
pub open spec fn spec_file_record(f: FsFileV, cp: u64) -> Option<TransactionLogV> {
    if spec_eligible(f.name, cp) {
        match f.data {
            crate::fsmodel::FileDataV::Lines(lines) => match crate::parse::spec_parse_log(
                f.name,
                lines,
            ) {
                Ok(t) => Some(t),
                Err(_) => None,
            },
            _ => None,
        }
    } else {
        None
    }
}

/// The records the merge takes, in file order.
pub open spec fn spec_contributing(files: Seq<FsFileV>, cp: u64) -> Seq<TransactionLogV>
    decreases files.len(),
{
    if files.len() == 0 {
        Seq::empty()
    } else {
        spec_contributing(files.drop_last(), cp) + (match spec_file_record(files.last(), cp) {
            Some(t) => seq![t],
            None => Seq::empty(),
        })
    }
}

/// What reconstruction yields for a log directory: the resolved version
/// and the merge of the contributing records over the checkpoint
/// baseline.
pub open spec fn spec_reconstruct(dv: FsDirV) -> (u64, EntrySeq) {
    let cp = spec_checkpoint_outcome(dv).0;
    (
        spec_resolved_version(dv.files, cp),
        spec_merge(spec_checkpoint_outcome(dv).1, spec_contributing(dv.files, cp)),
    )
}

/// Reconstruct a table's live-file map and resolved current version
/// from its log directory.
pub fn reconstruct(dir: &FsDir) -> (r: (u64, LiveFileMap))
    ensures
        r.1.wf(),
        (r.0, r.1.entry_seq()) == spec_reconstruct(dir.deep_view()),
{
    broadcast use crate::state::lemma_deep_of, crate::state::lemma_vec_deep_view;

    let ghost dv = dir.deep_view();
    let (cp, mut map) = crate::checkpoint::load_checkpoint(dir);
    let ghost s0 = map.entry_seq();
    let ghost fv = dv.files;
    proof {
        assert(fv =~= deep_of(dir.files@));
    }
    let mut version: u64 = cp;
    let mut records: Vec<TransactionLog> = Vec::new();
    proof {
        assert(fv.take(0) =~= Seq::<FsFileV>::empty());
        assert(deep_of(records@) =~= Seq::<TransactionLogV>::empty());
    }
    let n = dir.files.len();
    for i in 0..n
        invariant
            n == dir.files.len(),
            fv == deep_of(dir.files@),
            fv.len() == n,
            version == spec_resolved_version(fv.take(i as int), cp),
            deep_of(records@) == spec_contributing(fv.take(i as int), cp),
    {
        proof {
            assert(deep_of(dir.files@)[i as int] == dir.files@[i as int].deep_view());
        }
        let f = &dir.files[i];
        let is_json = is_json_name(f.name.as_str());
        let stem = file_version(f.name.as_str());
        let eligible = is_json && match stem {
            None => true,
            Some(v) => v > cp,
        };
        let ghost frv = spec_file_record(fv[i as int], cp);
        proof {
            assert(eligible == spec_eligible(fv[i as int].name, cp));
        }
        if eligible {
            if let Some(v) = stem {
                if v > version {
                    version = v;
                }
            }
            match &f.data {
                FileData::Lines(lines) => {
                    match crate::parse::parse_log_lines(f.name.clone(), lines) {
                        Ok(rec) => {
                            proof {
                                assert(frv == Some(rec.deep_view()));
                            }
                            let ghost pre_records = deep_of(records@);
                            let ghost rv = rec.deep_view();
                            records.push(rec);
                            proof {
                                assert(deep_of(records@) =~= pre_records.push(rv));
                            }
                        },
                        Err(_) => {
                            proof {
                                assert(frv is None);
                            }
                        },
                    }
                },
                FileData::Batches(_) => {
                    proof {
                        assert(frv is None);
                    }
                },
            }
        }
        proof {
            if !eligible {
                assert(frv is None);
            }
            let pre = fv.take(i as int);
            let post = fv.take(i as int + 1);
            assert(post.drop_last() =~= pre);
            assert(post.last() == fv[i as int]);
            assert(deep_of(records@) =~= spec_contributing(post, cp));
        }
    }
    proof {
        assert(fv.take(n as int) =~= fv);
    }
    crate::state::apply_log_records(&mut map, records);
    (version, map)
}

/// Summarize one table: reconstruct its state, then aggregate it. The
/// summary is a function of the table path and the directory contents
/// alone.
pub fn summarize_table(path: String, dir: &FsDir) -> (r: TableSummary)
    ensures
        r.deep_view() == spec_summarize(
            path@,
            spec_reconstruct(dir.deep_view()).0,
            spec_reconstruct(dir.deep_view()).1,
        ),
{
    let (version, map) = reconstruct(dir);
    summarize_map(path, version, &map)
}

/// Summarizing the same table directory twice, with no intervening
/// writes, yields identical summaries: the summary is a function of the
/// directory contents alone.
pub proof fn lemma_summarize_table_idempotent(
    path: Seq<char>,
    dv: FsDirV,
    r1: TableSummaryV,
    r2: TableSummaryV,
)
    requires
        r1 == spec_summarize(path, spec_reconstruct(dv).0, spec_reconstruct(dv).1),
        r2 == spec_summarize(path, spec_reconstruct(dv).0, spec_reconstruct(dv).1),
    ensures
        r1 == r2,
{
}

/// The version key of one log file for history: files with no parseable
/// stem sort as version zero.
pub open spec fn spec_history_key(name: Seq<char>) -> u64 {
    match spec_file_version(name) {
        Some(v) => v,
        None => 0,
    }
}

/// The versioned record one file feeds the history fold: the parse of
/// its lines, for a `.json`-named text file whose parse succeeds.
pub open spec fn spec_history_record(f: FsFileV) -> Option<(u64, TransactionLogV)> {
    if spec_is_json_name(f.name) {
        match f.data {
            crate::fsmodel::FileDataV::Lines(lines) => match crate::parse::spec_parse_log(
                f.name,
                lines,
            ) {
                Ok(t) => Some((spec_history_key(f.name), t)),
                Err(_) => None,
            },
            _ => None,
        }
    } else {
        None
    }
}

/// The versioned, parsed inputs of the history fold, in file order.
pub open spec fn spec_history_inputs(files: Seq<FsFileV>) -> Seq<(u64, TransactionLogV)>
    decreases files.len(),
{
    if files.len() == 0 {
        Seq::empty()
    } else {
        spec_history_inputs(files.drop_last()) + (match spec_history_record(files.last()) {
            Some(p) => seq![p],
            None => Seq::empty(),
        })
    }
}

/// The operations a history reports for given fold inputs: the
/// ascending fold, most recent first, truncated to the limit if one is
/// given.
pub open spec fn spec_history_ops(
    inputs: Seq<(u64, TransactionLogV)>,
    limit: Option<usize>,
) -> Seq<crate::history::OperationRecordV> {
    let asc = crate::history::spec_history_fold(
        crate::history::spec_sort_by_version(inputs),
        0i64,
        0i64,
    );
    match limit {
        Some(l) => asc.reverse().take(vstd::math::min(l as int, asc.len() as int)),
        None => asc.reverse(),
    }
}

/// Derive one table's history from its log directory. The history is a
/// function of the table path, the directory contents and the limit
/// alone.
pub fn table_history(path: String, dir: &FsDir, limit: Option<usize>) -> (r: TableHistory)
    ensures
        r.deep_view().path == path@,
        r.deep_view().operations == spec_history_ops(
            spec_history_inputs(dir.deep_view().files),
            limit,
        ),
{
    broadcast use crate::state::lemma_deep_of, crate::state::lemma_vec_deep_view;

    let ghost dv = dir.deep_view();
    let ghost fv = dv.files;
    proof {
        assert(fv =~= deep_of(dir.files@));
    }
    let mut inputs: Vec<(u64, TransactionLog)> = Vec::new();
    proof {
        assert(fv.take(0) =~= Seq::<FsFileV>::empty());
        assert(deep_of(inputs@) =~= Seq::<(u64, TransactionLogV)>::empty());
    }
    let n = dir.files.len();
    for i in 0..n
        invariant
            n == dir.files.len(),
            fv == deep_of(dir.files@),
            fv.len() == n,
            deep_of(inputs@) == spec_history_inputs(fv.take(i as int)),
    {
        proof {
            assert(deep_of(dir.files@)[i as int] == dir.files@[i as int].deep_view());
        }
        let f = &dir.files[i];
        let ghost hrv = spec_history_record(fv[i as int]);
        if is_json_name(f.name.as_str()) {
            let key = match file_version(f.name.as_str()) {
                Some(v) => v,
                None => 0,
            };
            match &f.data {
                FileData::Lines(lines) => {
                    match crate::parse::parse_log_lines(f.name.clone(), lines) {
                        Ok(rec) => {
                            proof {
                                assert(hrv == Some((key, rec.deep_view())));
                            }
                            let ghost pre_inputs = deep_of(inputs@);
                            let ghost rv = rec.deep_view();
                            inputs.push((key, rec));
                            proof {
                                assert(deep_of(inputs@) =~= pre_inputs.push((key, rv)));
                            }
                        },
                        Err(_) => {
                            proof {
                                assert(hrv is None);
                            }
                        },
                    }
                },
                FileData::Batches(_) => {
                    proof {
                        assert(hrv is None);
                    }
                },
            }
        } else {
            proof {
                assert(hrv is None);
            }
        }
        proof {
            let pre = fv.take(i as int);
            let post = fv.take(i as int + 1);
            assert(post.drop_last() =~= pre);
            assert(post.last() == fv[i as int]);
            assert(deep_of(inputs@) =~= spec_history_inputs(post));
        }
    }
    proof {
        assert(fv.take(n as int) =~= fv);
    }
    build_history(path, inputs, limit)
}

/// The locator budget a pagination implies: page size times page number
/// when both are given, one page's worth with no page number, unbounded
/// with no page size.
pub open spec fn spec_page_budget(n_tables: Option<usize>, page: Option<usize>) -> Option<int> {
    match (n_tables, page) {
        (Some(s), Some(p)) => Some(s * p),
        (Some(s), None) => Some(s as int),
        (None, _) => None,
    }
}

/// The first located index a page reports.
pub open spec fn spec_page_start(n_tables: Option<usize>, page: Option<usize>) -> int {
    match (n_tables, page) {
        (Some(s), Some(p)) => s * (p - 1),
        _ => 0,
    }
}

/// The slice of located log directories one page reports.
pub open spec fn spec_page_slice(
    located: Seq<(Seq<char>, FsDirV)>,
    n_tables: Option<usize>,
    page: Option<usize>,
) -> Seq<(Seq<char>, FsDirV)> {
    located.skip(vstd::math::min(spec_page_start(n_tables, page), located.len() as int))
}

/// The executable budget for a pagination.
fn page_budget(n_tables: Option<usize>, page: Option<usize>) -> (r: Option<u128>)
    requires
        page matches Some(p) ==> p >= 1,
    ensures
        budget_model(r) == spec_page_budget(n_tables, page),
{
    match (n_tables, page) {
        (Some(s), Some(p)) => {
            proof {
                assert((s as int) * (p as int) <= 0xffffffffffffffffint * 0xffffffffffffffffint)
                    by (nonlinear_arith)
                    requires
                        0 <= s <= 0xffffffffffffffffint,
                        0 <= p <= 0xffffffffffffffffint,
                ;
            }
            Some((s as u128) * (p as u128))
        },
        (Some(s), None) => Some(s as u128),
        (None, _) => None,
    }
}

/// Locate the page's log directories: everything the locator finds
/// within the page budget, minus the earlier pages.
#[verifier::rlimit(50)]
fn locate_page<'a>(
    root_path: &str,
    root: &'a FsDir,
    recursive: bool,
    n_tables: Option<usize>,
    page: Option<usize>,
) -> (r: Vec<(String, &'a FsDir)>)
    requires
        page matches Some(p) ==> p >= 1,
    ensures
        deep_of(r@) == spec_page_slice(
            spec_locate(
                root_path@,
                root.deep_view(),
                recursive,
                spec_page_budget(n_tables, page),
            ),
            n_tables,
            page,
        ),
{
    broadcast use crate::state::lemma_deep_of, crate::state::lemma_vec_deep_view;

    let budget = page_budget(n_tables, page);
    let mut located = find_log_dirs(root_path, root, recursive, budget);
    let ghost all = deep_of(located@);
    let start_wide: u128 = match (n_tables, page) {
        (Some(s), Some(p)) => {
            proof {
                assert((s as int) * ((p - 1) as int) <= 0xffffffffffffffffint
                    * 0xffffffffffffffffint) by (nonlinear_arith)
                    requires
                        0 <= s <= 0xffffffffffffffffint,
                        0 <= p - 1 <= 0xffffffffffffffffint,
                ;
            }
            (s as u128) * ((p - 1) as u128)
        },
        _ => 0,
    };
    let mut skipped: u128 = 0;
    proof {
        assert(all.skip(0) =~= all);
    }
    while skipped < start_wide && located.len() > 0
        invariant
            skipped <= start_wide,
            deep_of(located@) =~= all.skip(
                vstd::math::min(skipped as int, all.len() as int),
            ),
        decreases start_wide - skipped, located.len(),
    {
        let ghost prev = located@;
        located.remove(0);
        proof {
            prev.remove_ensures(0int);
            assert(deep_of(prev)[0] == prev[0].deep_view());
            assert forall|j: int| 0 <= j < located@.len() implies deep_of(located@)[j] == all.skip(
                vstd::math::min(skipped as int + 1, all.len() as int),
            )[j] by {
                assert(located@[j] == prev[j + 1]);
                assert(deep_of(prev)[j + 1] == prev[j + 1].deep_view());
            }
            assert(deep_of(located@) =~= all.skip(
                vstd::math::min(skipped as int + 1, all.len() as int),
            ));
        }
        skipped = skipped + 1;
    }
    proof {
        if skipped == start_wide {
            assert(vstd::math::min(skipped as int, all.len() as int) == vstd::math::min(
                spec_page_start(n_tables, page),
                all.len() as int,
            ));
        } else {
            assert(located@.len() == 0);
            assert(deep_of(located@).len() == 0);
            assert(all.skip(vstd::math::min(spec_page_start(n_tables, page), all.len() as int)).len()
                == 0) by {
                assert(vstd::math::min(skipped as int, all.len() as int) == all.len() as int);
            }
            assert(deep_of(located@) =~= all.skip(
                vstd::math::min(spec_page_start(n_tables, page), all.len() as int),
            ));
        }
    }
    located
}

/// One reported summary is the summary of its located directory.
pub open spec fn summary_ok(p: (Seq<char>, FsDirV), s: TableSummaryV) -> bool {
    s == spec_summarize(p.0, spec_reconstruct(p.1).0, spec_reconstruct(p.1).1)
}

/// One reported history is the history of its located directory.
pub open spec fn history_ok(
    p: (Seq<char>, FsDirV),
    h: crate::history::TableHistoryV,
    n_operations: Option<usize>,
) -> bool {
    h.path == p.0 && h.operations == spec_history_ops(
        spec_history_inputs(p.1.files),
        n_operations,
    )
}

/// Summarize every table of one page of the located log directories.
/// With five discoverable tables and a page size of two, the first page
/// reports the first two in traversal order, the third page the fifth
/// alone, and a fourth page is empty, not an error.
pub fn summarize_tables_paginated(
    root_path: &str,
    root: &FsDir,
    recursive: bool,
    n_tables: Option<usize>,
    page: Option<usize>,
) -> (r: Vec<TableSummary>)
    requires
        page matches Some(p) ==> p >= 1,
    ensures
        ({
            let slice = spec_page_slice(
                spec_locate(
                    root_path@,
                    root.deep_view(),
                    recursive,
                    spec_page_budget(n_tables, page),
                ),
                n_tables,
                page,
            );
            &&& r.deep_view().len() == slice.len()
            &&& forall|k: int|
                0 <= k < slice.len() ==> #[trigger] summary_ok(slice[k], r.deep_view()[k])
        }),
{
    broadcast use crate::state::lemma_deep_of, crate::state::lemma_vec_deep_view;

    let page_dirs = locate_page(root_path, root, recursive, n_tables, page);
    let ghost slice = deep_of(page_dirs@);
    let mut out: Vec<TableSummary> = Vec::new();
    proof {
        assert(deep_of(out@).len() == 0);
    }
    let n = page_dirs.len();
    let mut idx: usize = 0;
    let mut rest = page_dirs;
    while idx < n
        invariant
            n == slice.len(),
            idx <= n,
            deep_of(rest@) =~= slice.skip(idx as int),
            out@.len() == idx,
            forall|k: int| 0 <= k < idx ==> #[trigger] summary_ok(slice[k], deep_of(out@)[k]),
        decreases n - idx,
    {
        let ghost prev = rest@;
        let (path, dir) = rest.remove(0);
        proof {
            prev.remove_ensures(0int);
            assert(deep_of(prev)[0] == prev[0].deep_view());
            assert(prev[0].deep_view() == slice[idx as int]);
            assert forall|j: int| 0 <= j < rest@.len() implies deep_of(rest@)[j] == slice.skip(
                idx as int + 1,
            )[j] by {
                assert(rest@[j] == prev[j + 1]);
                assert(deep_of(prev)[j + 1] == prev[j + 1].deep_view());
            }
            assert(deep_of(rest@) =~= slice.skip(idx as int + 1));
        }
        let ghost pathv = path@;
        let summary = summarize_table(path, dir);
        let ghost pre_out = deep_of(out@);
        let ghost sv = summary.deep_view();
        out.push(summary);
        proof {
            assert(deep_of(out@) =~= pre_out.push(sv));
            assert(summary_ok(slice[idx as int], sv)) by {
                assert(slice[idx as int].1 == dir.deep_view());
                assert(slice[idx as int].0 == pathv);
            }
            assert forall|k: int| 0 <= k < idx + 1 implies #[trigger] summary_ok(
                slice[k],
                deep_of(out@)[k],
            ) by {
                if k < idx {
                    assert(deep_of(out@)[k] == pre_out[k]);
                    assert(summary_ok(slice[k], pre_out[k]));
                } else {
                    assert(deep_of(out@)[k] == sv);
                }
            }
        }
        idx = idx + 1;
    }
    out
}

/// Derive every table history of one page of the located log
/// directories.
pub fn get_table_history_paginated(
    root_path: &str,
    root: &FsDir,
    recursive: bool,
    n_operations: Option<usize>,
    n_tables: Option<usize>,
    page: Option<usize>,
) -> (r: Vec<TableHistory>)
    requires
        page matches Some(p) ==> p >= 1,
    ensures
        ({
            let slice = spec_page_slice(
                spec_locate(
                    root_path@,
                    root.deep_view(),
                    recursive,
                    spec_page_budget(n_tables, page),
                ),
                n_tables,
                page,
            );
            &&& r.deep_view().len() == slice.len()
            &&& forall|k: int|
                0 <= k < slice.len() ==> #[trigger] history_ok(
                    slice[k],
                    r.deep_view()[k],
                    n_operations,
                )
        }),
{
    broadcast use crate::state::lemma_deep_of, crate::state::lemma_vec_deep_view;

    let page_dirs = locate_page(root_path, root, recursive, n_tables, page);
    let ghost slice = deep_of(page_dirs@);
    let mut out: Vec<TableHistory> = Vec::new();
    let n = page_dirs.len();
    let mut idx: usize = 0;
    let mut rest = page_dirs;
    while idx < n
        invariant
            n == slice.len(),
            idx <= n,
            deep_of(rest@) =~= slice.skip(idx as int),
            out@.len() == idx,
            forall|k: int|
                0 <= k < idx ==> #[trigger] history_ok(slice[k], deep_of(out@)[k], n_operations),
        decreases n - idx,
    {
        let ghost prev = rest@;
        let (path, dir) = rest.remove(0);
        proof {
            prev.remove_ensures(0int);
            assert(deep_of(prev)[0] == prev[0].deep_view());
            assert(prev[0].deep_view() == slice[idx as int]);
            assert forall|j: int| 0 <= j < rest@.len() implies deep_of(rest@)[j] == slice.skip(
                idx as int + 1,
            )[j] by {
                assert(rest@[j] == prev[j + 1]);
                assert(deep_of(prev)[j + 1] == prev[j + 1].deep_view());
            }
            assert(deep_of(rest@) =~= slice.skip(idx as int + 1));
        }
        let ghost pathv = path@;
        let history = table_history(path, dir, n_operations);
        let ghost pre_out = deep_of(out@);
        let ghost hv = history.deep_view();
        out.push(history);
        proof {
            assert(deep_of(out@) =~= pre_out.push(hv));
            assert(history_ok(slice[idx as int], hv, n_operations)) by {
                assert(slice[idx as int].1 == dir.deep_view());
                assert(slice[idx as int].0 == pathv);
            }
            assert forall|k: int| 0 <= k < idx + 1 implies #[trigger] history_ok(
                slice[k],
                deep_of(out@)[k],
                n_operations,
            ) by {
                if k < idx {
                    assert(deep_of(out@)[k] == pre_out[k]);
                    assert(history_ok(slice[k], pre_out[k], n_operations));
                } else {
                    assert(deep_of(out@)[k] == hv);
                }
            }
        }
        idx = idx + 1;
    }
    out
}

} // verus!
