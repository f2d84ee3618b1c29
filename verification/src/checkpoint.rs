//! The checkpoint loader: an optional descriptor sidecar names the
//! checkpoint's version; the columnar data file of that version, when
//! present, yields the baseline live-file map. Checkpoint-derived records
//! are intentionally lossy: only the record count is taken out of each
//! row's embedded statistics text, everything else defaults to empty.

use vstd::prelude::*;

use crate::action::{FileAdd, FileAddV, FileStats, FileStatsV};
use crate::fsmodel::{CheckpointAddV, CheckpointBatchV, FileData, FsDir, FsDirV};
use crate::json::{json_doc_of, JsonModel, JsonValue};
use crate::state::{insert_entry, remove_entry, EntrySeq, LiveFileMap};

verus! {

/// The descriptor's checkpoint version, out of its decoded document.
pub open spec fn spec_parse_last_checkpoint(j: JsonModel) -> Option<u64> {
    crate::parse::spec_uint_field(j, "version"@, u64::MAX as int)
}

/// Parse a decoded checkpoint descriptor document.
pub fn parse_last_checkpoint(j: &JsonValue) -> (r: Option<u64>)
    ensures
        r == spec_parse_last_checkpoint(j.deep_view()),
{
    j.get_uint("version", u64::MAX)
}

/// The record count a row's statistics text carries: zero whenever the
/// text does not decode or carries no usable count.
pub open spec fn spec_row_records(stats: Seq<char>) -> u64 {
    match json_doc_of(stats) {
        Some(m) => match crate::parse::spec_uint_field(m, "numRecords"@, u64::MAX as int) {
            Some(n) => n,
            None => 0,
        },
        None => 0,
    }
}

/// The live-file record a checkpoint add row stands for, its record
/// count resolved out of its statistics text; everything the row does
/// not carry is empty.
pub open spec fn spec_row_add(row: CheckpointAddV) -> FileAddV {
    FileAddV {
        path: row.path,
        partition_values: Seq::empty(),
        size: row.size,
        modification_time: row.modification_time,
        data_change: false,
        stats: FileStatsV {
            num_records: spec_row_records(row.stats),
            min_values: Seq::empty(),
            max_values: Seq::empty(),
            null_count: Seq::empty(),
        },
        tags: None,
        base_row_id: None,
        default_row_commit_version: None,
        clustering_provider: None,
    }
}

/// One batch applied to the map: its add rows insert or overwrite keyed
/// by path, then its removed paths are deleted, immediately.
pub open spec fn spec_apply_batch(s: EntrySeq, b: CheckpointBatchV) -> EntrySeq {
    spec_remove_rows(spec_add_rows(s, b.adds), b.removes)
}

pub open spec fn spec_add_rows(s: EntrySeq, adds: Seq<CheckpointAddV>) -> EntrySeq
    decreases adds.len(),
{
    if adds.len() == 0 {
        s
    } else {
        insert_entry(spec_add_rows(s, adds.drop_last()), spec_row_add(adds.last()))
    }
}

pub open spec fn spec_remove_rows(s: EntrySeq, removes: Seq<Seq<char>>) -> EntrySeq
    decreases removes.len(),
{
    if removes.len() == 0 {
        s
    } else {
        remove_entry(spec_remove_rows(s, removes.drop_last()), removes.last())
    }
}

/// All batches applied in order.
pub open spec fn spec_apply_batches(s: EntrySeq, bs: Seq<CheckpointBatchV>) -> EntrySeq
    decreases bs.len(),
{
    if bs.len() == 0 {
        s
    } else {
        spec_apply_batch(spec_apply_batches(s, bs.drop_last()), bs.last())
    }
}

/// Read the record count out of a row's statistics text.
fn stats_num_records(stats: &str) -> (r: u64)
    ensures
        r == spec_row_records(stats@),
{
    match crate::json::parse_json(stats) {
        Some(doc) => match doc.get_uint("numRecords", u64::MAX) {
            Some(n) => n,
            None => 0,
        },
        None => 0,
    }
}

/// The reserved name of the checkpoint descriptor file.
pub open spec fn last_checkpoint_marker() -> Seq<char> {
    "_last_checkpoint"@
}

/// The checkpoint version a log directory names: the decoded version
/// field of the descriptor's first line, if the descriptor is there,
/// holds text, and its first line decodes to a document with one.
pub open spec fn spec_descriptor_version(dv: FsDirV) -> Option<u64> {
    match crate::fsmodel::spec_file_named(dv.files, last_checkpoint_marker()) {
        None => None,
        Some(f) => match f.data {
            crate::fsmodel::FileDataV::Lines(lines) => if lines.len() == 0 {
                None
            } else {
                match json_doc_of(lines[0]) {
                    Some(d) => spec_parse_last_checkpoint(d),
                    None => None,
                }
            },
            _ => None,
        },
    }
}

/// What loading a checkpoint yields: no descriptor version, no data
/// file of that version, or no decoded batches in it, is an empty
/// baseline at version zero; otherwise the data file's batches applied
/// in order.
pub open spec fn spec_checkpoint_outcome(dv: FsDirV) -> (u64, EntrySeq) {
    match spec_descriptor_version(dv) {
        None => (0u64, Seq::empty()),
        Some(v) => match crate::fsmodel::spec_file_named(
            dv.files,
            crate::numerals::spec_checkpoint_file_name(v),
        ) {
            None => (0u64, Seq::empty()),
            Some(f) => match f.data {
                crate::fsmodel::FileDataV::Batches(bs) => (v, spec_apply_batches(Seq::empty(), bs)),
                _ => (0u64, Seq::empty()),
            },
        },
    }
}

/// Load the checkpoint baseline of a log directory: exactly the
/// version the descriptor names and the data file's batches applied in
/// order, or an empty baseline at version zero when any part is absent.
pub fn load_checkpoint(dir: &FsDir) -> (r: (u64, LiveFileMap))
    ensures
        r.1.wf(),
        (r.0, r.1.entry_seq()) == spec_checkpoint_outcome(dir.deep_view()),
{
    broadcast use crate::state::lemma_deep_of, crate::state::lemma_vec_deep_view;

    let ghost dv = dir.deep_view();
    let empty_map = LiveFileMap::new();
    let descriptor = match dir.file_named("_last_checkpoint") {
        Some(f) => f,
        None => {
            return (0, empty_map);
        },
    };
    let version_opt: Option<u64> = match &descriptor.data {
        FileData::Lines(lines) => {
            if lines.len() == 0 {
                None
            } else {
                proof {
                    assert(crate::state::deep_of(lines@)[0] == lines@[0].deep_view());
                }
                match crate::json::parse_json(lines[0].as_str()) {
                    Some(doc) => parse_last_checkpoint(&doc),
                    None => None,
                }
            }
        },
        FileData::Batches(_) => None,
    };
    proof {
        assert(version_opt == spec_descriptor_version(dv));
    }
    let version = match version_opt {
        Some(v) => v,
        None => {
            return (0, empty_map);
        },
    };
    let data_name = crate::numerals::checkpoint_file_name(version);
    let data_file = match dir.file_named(data_name.as_str()) {
        Some(f) => f,
        None => {
            return (0, empty_map);
        },
    };
    let batches = match &data_file.data {
        FileData::Batches(bs) => bs,
        FileData::Lines(_) => {
            return (0, empty_map);
        },
    };
    let ghost bsv = batches.deep_view();
    let mut map = LiveFileMap::new();
    proof {
        assert(map.entry_seq() =~= spec_apply_batches(
            Seq::<(Seq<char>, FileAddV)>::empty(),
            bsv.take(0),
        )) by {
            assert(bsv.take(0) =~= Seq::<CheckpointBatchV>::empty());
        }
    }
    let nb = batches.len();
    for b in 0..nb
        invariant
            nb == batches.len(),
            bsv == batches.deep_view(),
            bsv.len() == nb,
            map.wf(),
            map.entry_seq() == spec_apply_batches(
                Seq::<(Seq<char>, FileAddV)>::empty(),
                bsv.take(b as int),
            ),
    {
        proof {
            assert(crate::state::deep_of(batches@)[b as int] == batches@[b as int].deep_view());
        }
        let batch = &batches[b];
        let ghost bv = bsv[b as int];
        let ghost s_mid = map.entry_seq();
        let n_adds = batch.adds.len();
        proof {
            assert(bv.adds.take(0) =~= Seq::<CheckpointAddV>::empty());
            assert(spec_add_rows(s_mid, bv.adds.take(0)) == s_mid);
        }
        for k in 0..n_adds
            invariant
                n_adds == batch.adds.len(),
                bv == bsv[b as int],
                bv.adds.len() == n_adds,
                bv.adds == batch.adds.deep_view(),
                map.wf(),
                map.entry_seq() == spec_add_rows(s_mid, bv.adds.take(k as int)),
        {
            proof {
                assert(crate::state::deep_of(batch.adds@)[k as int] == batch.adds@[k as int].deep_view());
            }
            let row = &batch.adds[k];
            let nr = stats_num_records(row.stats.as_str());
            let add = FileAdd {
                path: row.path.clone(),
                partition_values: Vec::new(),
                size: row.size,
                modification_time: row.modification_time,
                data_change: false,
                stats: FileStats::records_only(nr),
                tags: None,
                base_row_id: None,
                default_row_commit_version: None,
                clustering_provider: None,
            };
            proof {
                assert(add.deep_view() =~~= spec_row_add(bv.adds[k as int])) by {
                    assert(add.deep_view().partition_values =~= Seq::<(Seq<char>, Seq<char>)>::empty());
                    assert(bv.adds[k as int].stats == batch.adds@[k as int].stats@);
                }
            }
            map.insert(add);
            proof {
                let pre = bv.adds.take(k as int);
                let post = bv.adds.take(k as int + 1);
                assert(post.drop_last() =~= pre);
                assert(post.last() == bv.adds[k as int]);
            }
        }
        proof {
            assert(bv.adds.take(n_adds as int) =~= bv.adds);
        }
        let ghost s_added = map.entry_seq();
        let n_rems = batch.removes.len();
        proof {
            assert(bv.removes.take(0) =~= Seq::<Seq<char>>::empty());
            assert(spec_remove_rows(s_added, bv.removes.take(0)) == s_added);
        }
        for k in 0..n_rems
            invariant
                n_rems == batch.removes.len(),
                bv == bsv[b as int],
                bv.removes.len() == n_rems,
                bv.removes == batch.removes.deep_view(),
                map.wf(),
                map.entry_seq() == spec_remove_rows(s_added, bv.removes.take(k as int)),
        {
            proof {
                assert(crate::state::deep_of(batch.removes@)[k as int] == batch.removes@[k as int].deep_view());
            }
            map.remove(&batch.removes[k]);
            proof {
                let pre = bv.removes.take(k as int);
                let post = bv.removes.take(k as int + 1);
                assert(post.drop_last() =~= pre);
                assert(post.last() == bv.removes[k as int]);
            }
        }
        proof {
            assert(bv.removes.take(n_rems as int) =~= bv.removes);
            let pre = bsv.take(b as int);
            let post = bsv.take(b as int + 1);
            assert(post.drop_last() =~= pre);
            assert(post.last() == bsv[b as int]);
        }
    }
    proof {
        assert(bsv.take(nb as int) =~= bsv);
        assert((version, map.entry_seq()) == spec_checkpoint_outcome(dv));
    }
    (version, map)
}

} // verus!
