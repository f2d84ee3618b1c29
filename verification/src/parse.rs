//! The commit log parser: one decoded JSON document per log line, turned
//! into a typed action. The wire shapes carry camel-case keys; two of
//! them (`stats`, `schemaString`) hold JSON-encoded strings that take a
//! second decode pass.

use vstd::prelude::*;

use crate::action::{
    ArrayType, ArrayTypeV, CommitInfo, CommitInfoV, DeltaAction, DeltaActionV, Field, FieldType,
    FieldTypeV, FieldV, FileAdd, FileAddV, FileRemove, FileRemoveV, FileStats, FileStatsV,
    MapType, MapTypeV, Metadata, MetadataV, MetricsDelete, MetricsOptimize, MetricsOptimizeV,
    MetricsVacuumEnd, MetricsVacuumStart, MetricsWrite, NullCount, NullCountV, OperationMetrics,
    OperationMetricsV, Protocol, Schema, SchemaV, StatValue, StatValueV, StorageFormat,
    StorageFormatV, StructType, StructTypeV, TransactionLog, TransactionLogV,
};
use crate::json::{lookup_entries, JsonModel, JsonValue};

verus! {

/// The value under `key`, when the document is an object.
pub open spec fn spec_field(j: JsonModel, key: Seq<char>) -> Option<JsonModel> {
    j.lookup(key)
}

/// A required unsigned field within `bound`.
pub open spec fn spec_uint_field(j: JsonModel, key: Seq<char>, bound: int) -> Option<u64> {
    match spec_field(j, key) {
        Some(JsonModel::Int(n)) => if 0 <= n <= bound {
            Some(n as u64)
        } else {
            None
        },
        _ => None,
    }
}

/// A required boolean field.
pub open spec fn spec_bool_field(j: JsonModel, key: Seq<char>) -> Option<bool> {
    match spec_field(j, key) {
        Some(JsonModel::Bool(b)) => Some(b),
        _ => None,
    }
}

/// A required string field.
pub open spec fn spec_str_field(j: JsonModel, key: Seq<char>) -> Option<Seq<char>> {
    match spec_field(j, key) {
        Some(JsonModel::Text(t)) => Some(t),
        _ => None,
    }
}

/// An optional string field: absent or null is an accepted absence, a
/// string is a value, anything else refuses the record.
pub open spec fn spec_opt_str_field(j: JsonModel, key: Seq<char>) -> Option<Option<Seq<char>>> {
    match spec_field(j, key) {
        None => Some(None),
        Some(JsonModel::Null) => Some(None),
        Some(JsonModel::Text(t)) => Some(Some(t)),
        _ => None,
    }
}

/// An optional unsigned field within `bound`.
pub open spec fn spec_opt_uint_field(j: JsonModel, key: Seq<char>, bound: int) -> Option<
    Option<u64>,
> {
    match spec_field(j, key) {
        None => Some(None),
        Some(JsonModel::Null) => Some(None),
        Some(JsonModel::Int(n)) => if 0 <= n <= bound {
            Some(Some(n as u64))
        } else {
            None
        },
        _ => None,
    }
}

/// An optional boolean field.
pub open spec fn spec_opt_bool_field(j: JsonModel, key: Seq<char>) -> Option<Option<bool>> {
    match spec_field(j, key) {
        None => Some(None),
        Some(JsonModel::Null) => Some(None),
        Some(JsonModel::Bool(b)) => Some(Some(b)),
        _ => None,
    }
}

/// Object entries whose values are all strings, in wire order.
pub open spec fn spec_str_entries(entries: Seq<(Seq<char>, JsonModel)>) -> Option<
    Seq<(Seq<char>, Seq<char>)>,
>
    decreases entries.len(),
{
    if entries.len() == 0 {
        Some(Seq::empty())
    } else {
        match spec_str_entries(entries.drop_last()) {
            None => None,
            Some(pre) => match entries.last().1 {
                JsonModel::Text(t) => Some(pre.push((entries.last().0, t))),
                _ => None,
            },
        }
    }
}

/// A required field holding a map of strings.
pub open spec fn spec_str_map_field(j: JsonModel, key: Seq<char>) -> Option<
    Seq<(Seq<char>, Seq<char>)>,
> {
    match spec_field(j, key) {
        Some(JsonModel::Obj(entries)) => spec_str_entries(entries),
        _ => None,
    }
}

/// A required field holding an array of strings.
pub open spec fn spec_str_seq(items: Seq<JsonModel>) -> Option<Seq<Seq<char>>>
    decreases items.len(),
{
    if items.len() == 0 {
        Some(Seq::empty())
    } else {
        match spec_str_seq(items.drop_last()) {
            None => None,
            Some(pre) => match items.last() {
                JsonModel::Text(t) => Some(pre.push(t)),
                _ => None,
            },
        }
    }
}

pub open spec fn spec_str_arr_field(j: JsonModel, key: Seq<char>) -> Option<Seq<Seq<char>>> {
    match spec_field(j, key) {
        Some(JsonModel::Arr(items)) => spec_str_seq(items),
        _ => None,
    }
}

impl JsonValue {
    /// A required unsigned field within `bound`.
    pub fn get_uint(&self, key: &str, bound: u64) -> (r: Option<u64>)
        ensures
            r == spec_uint_field(self.deep_view(), key@, bound as int),
    {
        match self.get(key) {
            Some(JsonValue::UInt(u)) => {
                if *u <= bound {
                    Some(*u)
                } else {
                    None
                }
            },
            Some(JsonValue::Int(i)) => {
                if *i >= 0 && *i as u64 <= bound {
                    Some(*i as u64)
                } else {
                    None
                }
            },
            _ => None,
        }
    }

    /// A required boolean field.
    pub fn get_bool(&self, key: &str) -> (r: Option<bool>)
        ensures
            r == spec_bool_field(self.deep_view(), key@),
    {
        match self.get(key) {
            Some(JsonValue::Bool(b)) => Some(*b),
            _ => None,
        }
    }

    /// A required string field, cloned out of the document.
    pub fn get_str(&self, key: &str) -> (r: Option<String>)
        ensures
            match r {
                Some(s) => spec_str_field(self.deep_view(), key@) == Some(s@),
                None => spec_str_field(self.deep_view(), key@) is None,
            },
    {
        match self.get(key) {
            Some(JsonValue::Text(t)) => Some(t.clone()),
            _ => None,
        }
    }

    /// An optional string field; the outer `None` refuses the record.
    pub fn get_opt_str(&self, key: &str) -> (r: Option<Option<String>>)
        ensures
            match r {
                Some(Some(s)) => spec_opt_str_field(self.deep_view(), key@) == Some(
                    Some(s@),
                ),
                Some(None) => spec_opt_str_field(self.deep_view(), key@) == Some(
                    None::<Seq<char>>,
                ),
                None => spec_opt_str_field(self.deep_view(), key@) is None,
            },
    {
        match self.get(key) {
            None => Some(None),
            Some(JsonValue::Null) => Some(None),
            Some(JsonValue::Text(t)) => Some(Some(t.clone())),
            _ => None,
        }
    }

    /// An optional unsigned field within `bound`.
    pub fn get_opt_uint(&self, key: &str, bound: u64) -> (r: Option<Option<u64>>)
        ensures
            r == spec_opt_uint_field(self.deep_view(), key@, bound as int),
    {
        match self.get(key) {
            None => Some(None),
            Some(JsonValue::Null) => Some(None),
            Some(JsonValue::UInt(u)) => {
                if *u <= bound {
                    Some(Some(*u))
                } else {
                    None
                }
            },
            Some(JsonValue::Int(i)) => {
                if *i >= 0 && *i as u64 <= bound {
                    Some(Some(*i as u64))
                } else {
                    None
                }
            },
            _ => None,
        }
    }

    /// An optional boolean field.
    pub fn get_opt_bool(&self, key: &str) -> (r: Option<Option<bool>>)
        ensures
            r == spec_opt_bool_field(self.deep_view(), key@),
    {
        match self.get(key) {
            None => Some(None),
            Some(JsonValue::Null) => Some(None),
            Some(JsonValue::Bool(b)) => Some(Some(*b)),
            _ => None,
        }
    }

    /// A required string-map field, cloned out of the document.
    pub fn get_str_map(&self, key: &str) -> (r: Option<Vec<(String, String)>>)
        ensures
            match r {
                Some(m) => spec_str_map_field(self.deep_view(), key@) == Some(m.deep_view()),
                None => spec_str_map_field(self.deep_view(), key@) is None,
            },
    {
        broadcast use crate::state::lemma_deep_of, crate::state::lemma_vec_deep_view;

        match self.get(key) {
            Some(JsonValue::Obj(entries)) => {
                let ghost ev = crate::json::json_model_entries(entries@);
                proof {
                    crate::json::lemma_json_model_entries(entries@);
                    assert(ev.take(0) =~= Seq::<(Seq<char>, JsonModel)>::empty());
                }
                let mut out: Vec<(String, String)> = Vec::new();
                let n = entries.len();
                for i in 0..n
                    invariant
                        n == entries.len(),
                        ev == crate::json::json_model_entries(entries@),
                        ev.len() == n,
                        forall|k: int| 0 <= k < entries@.len()
                            ==> ev[k] == (entries@[k].0@, crate::json::json_model(entries@[k].1)),
                        spec_str_entries(ev.take(i as int)) == Some(out.deep_view()),
                {
                    match &entries[i].1 {
                        JsonValue::Text(t) => {
                            let ghost pre = out.deep_view();
                            out.push((entries[i].0.clone(), t.clone()));
                            proof {
                                assert(ev.take(i as int + 1).drop_last() =~= ev.take(i as int));
                                assert(ev.take(i as int + 1).last() == ev[i as int]);
                                assert(out.deep_view() =~= pre.push(
                                    (entries@[i as int].0@, entries@[i as int].1->Text_0@),
                                ));
                            }
                        },
                        _ => {
                            proof {
                                lemma_str_entries_fail(ev, i as int);
                            }
                            return None;
                        },
                    }
                }
                proof {
                    assert(ev.take(n as int) =~= ev);
                }
                Some(out)
            },
            _ => None,
        }
    }

    /// A required string-array field, cloned out of the document.
    pub fn get_str_arr(&self, key: &str) -> (r: Option<Vec<String>>)
        ensures
            match r {
                Some(m) => spec_str_arr_field(self.deep_view(), key@) == Some(m.deep_view()),
                None => spec_str_arr_field(self.deep_view(), key@) is None,
            },
    {
        broadcast use crate::state::lemma_deep_of, crate::state::lemma_vec_deep_view;

        match self.get(key) {
            Some(JsonValue::Arr(items)) => {
                let ghost iv = crate::json::json_model_seq(items@);
                proof {
                    crate::json::lemma_json_model_seq(items@);
                    assert(iv.take(0) =~= Seq::<JsonModel>::empty());
                }
                let mut out: Vec<String> = Vec::new();
                let n = items.len();
                for i in 0..n
                    invariant
                        n == items.len(),
                        iv == crate::json::json_model_seq(items@),
                        iv.len() == n,
                        forall|k: int| 0 <= k < items@.len()
                            ==> iv[k] == crate::json::json_model(items@[k]),
                        spec_str_seq(iv.take(i as int)) == Some(out.deep_view()),
                {
                    match &items[i] {
                        JsonValue::Text(t) => {
                            let ghost pre = out.deep_view();
                            out.push(t.clone());
                            proof {
                                assert(iv.take(i as int + 1).drop_last() =~= iv.take(i as int));
                                assert(iv.take(i as int + 1).last() == iv[i as int]);
                                assert(out.deep_view() =~= pre.push(items@[i as int]->Text_0@));
                            }
                        },
                        _ => {
                            proof {
                                lemma_str_seq_fail(iv, i as int);
                            }
                            return None;
                        },
                    }
                }
                proof {
                    assert(iv.take(n as int) =~= iv);
                }
                Some(out)
            },
            _ => None,
        }
    }
}

/// A non-string value anywhere refuses the whole string map.
proof fn lemma_str_entries_fail(ev: Seq<(Seq<char>, JsonModel)>, i: int)
    requires
        0 <= i < ev.len(),
        !(ev[i].1 is Text),
    ensures
        spec_str_entries(ev) is None,
    decreases ev.len(),
{
    if i == ev.len() - 1 {
    } else {
        assert(ev.drop_last()[i] == ev[i]);
        lemma_str_entries_fail(ev.drop_last(), i);
    }
}

proof fn lemma_str_seq_fail(iv: Seq<JsonModel>, i: int)
    requires
        0 <= i < iv.len(),
        !(iv[i] is Text),
    ensures
        spec_str_seq(iv) is None,
    decreases iv.len(),
{
    if i == iv.len() - 1 {
    } else {
        assert(iv.drop_last()[i] == iv[i]);
        lemma_str_seq_fail(iv.drop_last(), i);
    }
}

/// The protocol record: reader and writer version, both one byte.
pub open spec fn spec_parse_protocol(j: JsonModel) -> Option<Protocol> {
    match (spec_uint_field(j, "minReaderVersion"@, 0xff), spec_uint_field(
        j,
        "minWriterVersion"@,
        0xff,
    )) {
        (Some(r), Some(w)) => Some(
            Protocol { min_reader_version: r as u8, min_writer_version: w as u8 },
        ),
        _ => None,
    }
}

/// Parse a protocol action payload.
pub fn parse_protocol(j: &JsonValue) -> (r: Option<Protocol>)
    ensures
        r == spec_parse_protocol(j.deep_view()),
{
    let reader = j.get_uint("minReaderVersion", 0xff)?;
    let writer = j.get_uint("minWriterVersion", 0xff)?;
    Some(Protocol { min_reader_version: reader as u8, min_writer_version: writer as u8 })
}

/// The remove record.
pub open spec fn spec_parse_remove(j: JsonModel) -> Option<FileRemoveV> {
    match (
        spec_str_field(j, "path"@),
        spec_bool_field(j, "dataChange"@),
        spec_uint_field(j, "deletionTimestamp"@, u64::MAX as int),
        spec_opt_bool_field(j, "extendedFileMetadata"@),
        spec_str_map_field(j, "partitionValues"@),
        spec_uint_field(j, "size"@, u64::MAX as int),
    ) {
        (Some(path), Some(dc), Some(ts), Some(ext), Some(pv), Some(size)) => Some(
            FileRemoveV {
                path,
                data_change: dc,
                deletion_timestamp: ts,
                extended_file_metadata: ext,
                partition_values: pv,
                size,
            },
        ),
        _ => None,
    }
}

/// Parse a remove action payload.
pub fn parse_remove(j: &JsonValue) -> (r: Option<FileRemove>)
    ensures
        match r {
            Some(fr) => spec_parse_remove(j.deep_view()) == Some(fr.deep_view()),
            None => spec_parse_remove(j.deep_view()) is None,
        },
{
    let path = j.get_str("path")?;
    let data_change = j.get_bool("dataChange")?;
    let deletion_timestamp = j.get_uint("deletionTimestamp", u64::MAX)?;
    let extended_file_metadata = j.get_opt_bool("extendedFileMetadata")?;
    let partition_values = j.get_str_map("partitionValues")?;
    let size = j.get_uint("size", u64::MAX)?;
    Some(
        FileRemove {
            path,
            data_change,
            deletion_timestamp,
            extended_file_metadata,
            partition_values,
            size,
        },
    )
}

/// The write-shape metrics.
pub open spec fn spec_parse_metrics_write(j: JsonModel) -> Option<MetricsWrite> {
    match (
        spec_uint_field(j, "execution_time_ms"@, u64::MAX as int),
        spec_uint_field(j, "num_added_files"@, 0xffff),
        spec_uint_field(j, "num_added_rows"@, u64::MAX as int),
        spec_uint_field(j, "num_partitions"@, 0xffff),
        spec_uint_field(j, "num_removed_files"@, 0xffff),
    ) {
        (Some(t), Some(af), Some(ar), Some(p), Some(rf)) => Some(
            MetricsWrite {
                execution_time_ms: t,
                num_added_files: af as u16,
                num_added_rows: ar,
                num_partitions: p as u16,
                num_removed_files: rf as u16,
            },
        ),
        _ => None,
    }
}

/// The delete-shape metrics.
pub open spec fn spec_parse_metrics_delete(j: JsonModel) -> Option<MetricsDelete> {
    match (
        spec_uint_field(j, "execution_time_ms"@, u64::MAX as int),
        spec_uint_field(j, "num_added_files"@, 0xffff),
        spec_uint_field(j, "num_copied_rows"@, u64::MAX as int),
        spec_uint_field(j, "num_deleted_rows"@, u64::MAX as int),
        spec_uint_field(j, "num_removed_files"@, 0xffff),
        spec_uint_field(j, "rewrite_time_ms"@, u32::MAX as int),
        spec_uint_field(j, "scan_time_ms"@, u32::MAX as int),
    ) {
        (Some(t), Some(af), Some(cr), Some(dr), Some(rf), Some(rt), Some(st)) => Some(
            MetricsDelete {
                execution_time_ms: t,
                num_added_files: af as u16,
                num_copied_rows: cr,
                num_deleted_rows: dr,
                num_removed_files: rf as u16,
                rewrite_time_ms: rt as u32,
                scan_time_ms: st as u32,
            },
        ),
        _ => None,
    }
}

/// The optimize-shape metrics.
pub open spec fn spec_parse_metrics_optimize(j: JsonModel) -> Option<MetricsOptimizeV> {
    match (
        spec_str_field(j, "filesAdded"@),
        spec_str_field(j, "filesRemoved"@),
        spec_uint_field(j, "numBatches"@, 0xffff),
        spec_uint_field(j, "numFilesAdded"@, 0xffff),
        spec_uint_field(j, "numFilesRemoved"@, 0xffff),
        spec_uint_field(j, "partitionsOptimized"@, 0xffff),
        spec_bool_field(j, "preserveInsertionOrder"@),
        spec_uint_field(j, "totalConsideredFiles"@, 0xffff),
        spec_uint_field(j, "totalFilesSkipped"@, 0xffff),
    ) {
        (
            Some(fa),
            Some(fr),
            Some(nb),
            Some(nfa),
            Some(nfr),
            Some(po),
            Some(pi),
            Some(tc),
            Some(ts),
        ) => Some(
            MetricsOptimizeV {
                files_added: fa,
                files_removed: fr,
                num_batches: nb as u16,
                num_files_added: nfa as u16,
                num_files_removed: nfr as u16,
                partitions_optimized: po as u16,
                preserve_insertion_order: pi,
                total_considered_files: tc as u16,
                total_files_skipped: ts as u16,
            },
        ),
        _ => None,
    }
}

/// The vacuum-start-shape metrics.
pub open spec fn spec_parse_metrics_vacuum_start(j: JsonModel) -> Option<MetricsVacuumStart> {
    match (
        spec_uint_field(j, "numFilesToDelete"@, 0xffff),
        spec_uint_field(j, "sizeOfDataToDelete"@, u64::MAX as int),
    ) {
        (Some(n), Some(s)) => Some(
            MetricsVacuumStart { num_files_to_delete: n as u16, size_of_data_to_delete: s },
        ),
        _ => None,
    }
}

/// The vacuum-end-shape metrics.
pub open spec fn spec_parse_metrics_vacuum_end(j: JsonModel) -> Option<MetricsVacuumEnd> {
    match (
        spec_uint_field(j, "numDeletedFiles"@, 0xffff),
        spec_uint_field(j, "numVacuumedDirectories"@, u64::MAX as int),
    ) {
        (Some(n), Some(d)) => Some(
            MetricsVacuumEnd { num_deleted_files: n as u16, num_vacuumed_directories: d },
        ),
        _ => None,
    }
}

/// The wire format carries no discriminant between the five metrics
/// shapes: the first structurally complete match wins, in this fixed
/// order.
pub open spec fn spec_parse_metrics(j: JsonModel) -> Option<OperationMetricsV> {
    if spec_parse_metrics_write(j) is Some {
        Some(OperationMetricsV::Add(spec_parse_metrics_write(j)->0))
    } else if spec_parse_metrics_delete(j) is Some {
        Some(OperationMetricsV::Remove(spec_parse_metrics_delete(j)->0))
    } else if spec_parse_metrics_optimize(j) is Some {
        Some(OperationMetricsV::Optimize(spec_parse_metrics_optimize(j)->0))
    } else if spec_parse_metrics_vacuum_start(j) is Some {
        Some(OperationMetricsV::VacuumStart(spec_parse_metrics_vacuum_start(j)->0))
    } else if spec_parse_metrics_vacuum_end(j) is Some {
        Some(OperationMetricsV::VacuumEnd(spec_parse_metrics_vacuum_end(j)->0))
    } else {
        None
    }
}

/// Parse per-commit counters by field-shape matching, in the fixed
/// priority order.
pub fn parse_metrics(j: &JsonValue) -> (r: Option<OperationMetrics>)
    ensures
        match r {
            Some(m) => spec_parse_metrics(j.deep_view()) == Some(m.deep_view()),
            None => spec_parse_metrics(j.deep_view()) is None,
        },
{
    if let (Some(t), Some(af), Some(ar), Some(p), Some(rf)) = (
        j.get_uint("execution_time_ms", u64::MAX),
        j.get_uint("num_added_files", 0xffff),
        j.get_uint("num_added_rows", u64::MAX),
        j.get_uint("num_partitions", 0xffff),
        j.get_uint("num_removed_files", 0xffff),
    ) {
        return Some(
            OperationMetrics::Add(
                MetricsWrite {
                    execution_time_ms: t,
                    num_added_files: af as u16,
                    num_added_rows: ar,
                    num_partitions: p as u16,
                    num_removed_files: rf as u16,
                },
            ),
        );
    }
    if let (Some(t), Some(af), Some(cr), Some(dr), Some(rf), Some(rt), Some(st)) = (
        j.get_uint("execution_time_ms", u64::MAX),
        j.get_uint("num_added_files", 0xffff),
        j.get_uint("num_copied_rows", u64::MAX),
        j.get_uint("num_deleted_rows", u64::MAX),
        j.get_uint("num_removed_files", 0xffff),
        j.get_uint("rewrite_time_ms", u32::MAX as u64),
        j.get_uint("scan_time_ms", u32::MAX as u64),
    ) {
        return Some(
            OperationMetrics::Remove(
                MetricsDelete {
                    execution_time_ms: t,
                    num_added_files: af as u16,
                    num_copied_rows: cr,
                    num_deleted_rows: dr,
                    num_removed_files: rf as u16,
                    rewrite_time_ms: rt as u32,
                    scan_time_ms: st as u32,
                },
            ),
        );
    }
    let opt = {
        if let (Some(fa), Some(fr), Some(nb), Some(nfa), Some(nfr), Some(po), Some(pi)) = (
            j.get_str("filesAdded"),
            j.get_str("filesRemoved"),
            j.get_uint("numBatches", 0xffff),
            j.get_uint("numFilesAdded", 0xffff),
            j.get_uint("numFilesRemoved", 0xffff),
            j.get_uint("partitionsOptimized", 0xffff),
            j.get_bool("preserveInsertionOrder"),
        ) {
            if let (Some(tc), Some(ts)) = (
                j.get_uint("totalConsideredFiles", 0xffff),
                j.get_uint("totalFilesSkipped", 0xffff),
            ) {
                Some(
                    MetricsOptimize {
                        files_added: fa,
                        files_removed: fr,
                        num_batches: nb as u16,
                        num_files_added: nfa as u16,
                        num_files_removed: nfr as u16,
                        partitions_optimized: po as u16,
                        preserve_insertion_order: pi,
                        total_considered_files: tc as u16,
                        total_files_skipped: ts as u16,
                    },
                )
            } else {
                None
            }
        } else {
            None
        }
    };
    if let Some(o) = opt {
        return Some(OperationMetrics::Optimize(o));
    }
    if let (Some(n), Some(sz)) = (
        j.get_uint("numFilesToDelete", 0xffff),
        j.get_uint("sizeOfDataToDelete", u64::MAX),
    ) {
        return Some(
            OperationMetrics::VacuumStart(
                MetricsVacuumStart { num_files_to_delete: n as u16, size_of_data_to_delete: sz },
            ),
        );
    }
    if let (Some(n), Some(d)) = (
        j.get_uint("numDeletedFiles", 0xffff),
        j.get_uint("numVacuumedDirectories", u64::MAX),
    ) {
        return Some(
            OperationMetrics::VacuumEnd(
                MetricsVacuumEnd { num_deleted_files: n as u16, num_vacuumed_directories: d },
            ),
        );
    }
    None
}

/// The commit-info record; its `operationMetrics` object is parsed by
/// shape.
pub open spec fn spec_parse_commit_info(j: JsonModel) -> Option<CommitInfoV> {
    match (
        spec_uint_field(j, "timestamp"@, u64::MAX as int),
        spec_str_field(j, "operation"@),
        spec_str_map_field(j, "operationParameters"@),
        spec_str_field(j, "engineInfo"@),
        spec_field(j, "operationMetrics"@),
        spec_opt_uint_field(j, "readVersion"@, u32::MAX as int),
        spec_str_field(j, "clientVersion"@),
    ) {
        (Some(ts), Some(op), Some(params), Some(ei), Some(mj), Some(rv), Some(cv)) => {
            match spec_parse_metrics(mj) {
                Some(m) => Some(
                    CommitInfoV {
                        timestamp: ts,
                        operation: op,
                        operation_parameters: params,
                        engine_info: ei,
                        operation_metrics: m,
                        read_version: match rv {
                            Some(v) => Some(v as u32),
                            None => None,
                        },
                        client_version: cv,
                    },
                ),
                None => None,
            }
        },
        _ => None,
    }
}

/// Parse a commit-info action payload.
pub fn parse_commit_info(j: &JsonValue) -> (r: Option<CommitInfo>)
    ensures
        match r {
            Some(c) => spec_parse_commit_info(j.deep_view()) == Some(c.deep_view()),
            None => spec_parse_commit_info(j.deep_view()) is None,
        },
{
    let timestamp = j.get_uint("timestamp", u64::MAX)?;
    let operation = j.get_str("operation")?;
    let operation_parameters = j.get_str_map("operationParameters")?;
    let engine_info = j.get_str("engineInfo")?;
    let metrics_doc = match j.get("operationMetrics") {
        Some(m) => m,
        None => {
            return None;
        },
    };
    let read_version_wide = j.get_opt_uint("readVersion", u32::MAX as u64)?;
    let client_version = j.get_str("clientVersion")?;
    let operation_metrics = parse_metrics(metrics_doc)?;
    let read_version = match read_version_wide {
        Some(v) => Some(v as u32),
        None => None,
    };
    Some(
        CommitInfo {
            timestamp,
            operation,
            operation_parameters,
            engine_info,
            operation_metrics,
            read_version,
            client_version,
        },
    )
}

/// The statistic value of any JSON document: every document has one, the
/// shapes cover all of JSON. A number outside the signed 64-bit range is
/// carried as its numeral text.
pub open spec fn spec_stat_value(j: JsonModel) -> StatValueV
    decreases j, 1int,
{
    match j {
        JsonModel::Null => StatValueV::Null,
        JsonModel::Bool(b) => StatValueV::Bool(b),
        JsonModel::Int(n) => if i64::MIN <= n <= i64::MAX {
            StatValueV::Integer(n)
        } else {
            StatValueV::Float(crate::numerals::spec_digits(n))
        },
        JsonModel::NumLit(s) => StatValueV::Float(s),
        JsonModel::Text(s) => StatValueV::Text(s),
        JsonModel::Arr(items) => StatValueV::Array(spec_stat_seq(items)),
        JsonModel::Obj(entries) => StatValueV::Struct(spec_stat_entries(entries)),
    }
}

pub open spec fn spec_stat_seq(items: Seq<JsonModel>) -> Seq<StatValueV>
    decreases items, 9int,
{
    if items.len() == 0 {
        Seq::empty()
    } else {
        spec_stat_seq(items.drop_last()).push(spec_stat_value(items.last()))
    }
}

pub open spec fn spec_stat_entries(entries: Seq<(Seq<char>, JsonModel)>) -> Seq<
    (Seq<char>, StatValueV),
>
    decreases entries, 9int,
{
    if entries.len() == 0 {
        Seq::empty()
    } else {
        spec_stat_entries(entries.drop_last()).push(
            (entries.last().0, spec_stat_value(entries.last().1)),
        )
    }
}

pub broadcast proof fn lemma_spec_stat_seq(items: Seq<JsonModel>)
    ensures
        (#[trigger] spec_stat_seq(items)).len() == items.len(),
        forall|i: int| 0 <= i < items.len() ==> spec_stat_seq(items)[i] == spec_stat_value(
            items[i],
        ),
    decreases items.len(),
{
    if items.len() > 0 {
        lemma_spec_stat_seq(items.drop_last());
    }
}

pub broadcast proof fn lemma_spec_stat_entries(entries: Seq<(Seq<char>, JsonModel)>)
    ensures
        (#[trigger] spec_stat_entries(entries)).len() == entries.len(),
        forall|i: int| 0 <= i < entries.len() ==> spec_stat_entries(entries)[i] == (
            entries[i].0,
            spec_stat_value(entries[i].1),
        ),
    decreases entries.len(),
{
    if entries.len() > 0 {
        lemma_spec_stat_entries(entries.drop_last());
    }
}

/// Parse any document as a statistic value.
pub fn parse_stat_value(j: &JsonValue) -> (r: StatValue)
    ensures
        r.deep_view() == spec_stat_value(j.deep_view()),
    decreases j,
{
    broadcast use
        crate::state::lemma_deep_of,
        crate::state::lemma_vec_deep_view,
        crate::json::lemma_json_model_seq,
        crate::json::lemma_json_model_entries,
        lemma_spec_stat_seq,
        lemma_spec_stat_entries,
        crate::action::lemma_stat_value_seq_model,
        crate::action::lemma_stat_value_entries_model,
    ;

    match j {
        JsonValue::Null => StatValue::Null,
        JsonValue::Bool(b) => StatValue::Bool(*b),
        JsonValue::Int(i) => StatValue::Integer(*i),
        JsonValue::UInt(u) => {
            if *u <= i64::MAX as u64 {
                StatValue::Integer(*u as i64)
            } else {
                StatValue::Float(crate::numerals::u64_to_dec(*u))
            }
        },
        JsonValue::NumLit(s) => StatValue::Float(s.clone()),
        JsonValue::Text(s) => StatValue::Text(s.clone()),
        JsonValue::Arr(items) => {
            let ghost iv = crate::json::json_model_seq(items@);
            let mut out: Vec<StatValue> = Vec::new();
            let n = items.len();
            for i in 0..n
                invariant
                    n == items.len(),
                    iv == crate::json::json_model_seq(items@),
                    out@.len() == i,
                    forall|k: int| 0 <= k < i ==> crate::state::deep_of(out@)[k]
                        == spec_stat_value(iv[k]),
            {
                proof {
                    assert(decreases_to!(*j => j->Arr_0));
                    assert(decreases_to!(j->Arr_0 => j->Arr_0@));
                    assert(decreases_to!(j->Arr_0@ => j->Arr_0@[i as int]));
                }
                let e = parse_stat_value(&items[i]);
                let ghost pre_v = out@;
                out.push(e);
                proof {
                    crate::json::lemma_json_model_seq(items@);
                    crate::state::lemma_deep_of(pre_v);
                    crate::state::lemma_deep_of(out@);
                    assert forall|k: int| 0 <= k < i + 1 implies crate::state::deep_of(out@)[k]
                        == spec_stat_value(iv[k]) by {
                        assert(crate::state::deep_of(out@)[k] == out@[k].deep_view());
                        if k < i {
                            assert(out@[k] == pre_v[k]);
                            assert(crate::state::deep_of(pre_v)[k] == pre_v[k].deep_view());
                        } else {
                            assert(out@[k] == e);
                            assert(iv[k] == crate::json::json_model(items@[k]));
                        }
                    }
                }
            }
            let r = StatValue::Array(out);
            proof {
                crate::action::lemma_stat_value_seq_model(r->Array_0@);
                lemma_spec_stat_seq(iv);
                crate::json::lemma_json_model_seq(items@);
                crate::state::lemma_deep_of(r->Array_0@);
                assert forall|k: int| 0 <= k < n implies crate::action::stat_value_seq_model(
                    r->Array_0@,
                )[k] == spec_stat_seq(iv)[k] by {
                    assert(crate::state::deep_of(r->Array_0@)[k] == r->Array_0@[k].deep_view());
                }
                assert(crate::action::stat_value_seq_model(r->Array_0@) =~= spec_stat_seq(iv));
            }
            r
        },
        JsonValue::Obj(entries) => {
            let ghost ev = crate::json::json_model_entries(entries@);
            let mut out: Vec<(String, StatValue)> = Vec::new();
            let n = entries.len();
            for i in 0..n
                invariant
                    n == entries.len(),
                    ev == crate::json::json_model_entries(entries@),
                    out@.len() == i,
                    forall|k: int| 0 <= k < i ==> crate::state::deep_of(out@)[k] == (
                        ev[k].0,
                        spec_stat_value(ev[k].1),
                    ),
            {
                proof {
                    assert(decreases_to!(*j => j->Obj_0));
                    assert(decreases_to!(j->Obj_0 => j->Obj_0@));
                    assert(decreases_to!(j->Obj_0@ => j->Obj_0@[i as int]));
                    assert(decreases_to!(j->Obj_0@[i as int] => j->Obj_0@[i as int].1));
                }
                let e = parse_stat_value(&entries[i].1);
                let key = entries[i].0.clone();
                let ghost pre_v = out@;
                out.push((key, e));
                proof {
                    crate::json::lemma_json_model_entries(entries@);
                    crate::state::lemma_deep_of(pre_v);
                    crate::state::lemma_deep_of(out@);
                    assert forall|k: int| 0 <= k < i + 1 implies crate::state::deep_of(out@)[k]
                        == (ev[k].0, spec_stat_value(ev[k].1)) by {
                        assert(crate::state::deep_of(out@)[k] == out@[k].deep_view());
                        if k < i {
                            assert(out@[k] == pre_v[k]);
                            assert(crate::state::deep_of(pre_v)[k] == pre_v[k].deep_view());
                        } else {
                            assert(ev[k] == (
                                entries@[k].0@,
                                crate::json::json_model(entries@[k].1),
                            ));
                        }
                    }
                }
            }
            let r = StatValue::Struct(out);
            proof {
                crate::action::lemma_stat_value_entries_model(r->Struct_0@);
                lemma_spec_stat_entries(ev);
                crate::json::lemma_json_model_entries(entries@);
                crate::state::lemma_deep_of(r->Struct_0@);
                assert forall|k: int| 0 <= k < n implies crate::action::stat_value_entries_model(
                    r->Struct_0@,
                )[k] == spec_stat_entries(ev)[k] by {
                    assert(crate::state::deep_of(r->Struct_0@)[k] == r->Struct_0@[k].deep_view());
                }
                assert(crate::action::stat_value_entries_model(r->Struct_0@) =~= spec_stat_entries(
                    ev,
                ));
            }
            r
        },
    }
}

/// A null count: a number in range, or nested counts.
pub open spec fn spec_null_count(j: JsonModel) -> Option<NullCountV>
    decreases j, 1int,
{
    match j {
        JsonModel::Int(n) => if 0 <= n <= u64::MAX {
            Some(NullCountV::Count(n as u64))
        } else {
            None
        },
        JsonModel::Obj(entries) => match spec_null_entries(entries) {
            Some(m) => Some(NullCountV::Nested(m)),
            None => None,
        },
        _ => None,
    }
}

pub open spec fn spec_null_entries(entries: Seq<(Seq<char>, JsonModel)>) -> Option<
    Seq<(Seq<char>, NullCountV)>,
>
    decreases entries, 9int,
{
    if entries.len() == 0 {
        Some(Seq::empty())
    } else {
        match spec_null_entries(entries.drop_last()) {
            None => None,
            Some(pre) => match spec_null_count(entries.last().1) {
                Some(c) => Some(pre.push((entries.last().0, c))),
                None => None,
            },
        }
    }
}

proof fn lemma_null_entries_fail(entries: Seq<(Seq<char>, JsonModel)>, i: int)
    requires
        0 <= i < entries.len(),
        spec_null_count(entries[i].1) is None,
    ensures
        spec_null_entries(entries) is None,
    decreases entries.len(),
{
    if i < entries.len() - 1 {
        assert(entries.drop_last()[i] == entries[i]);
        lemma_null_entries_fail(entries.drop_last(), i);
    }
}

/// Parse a null count.
pub fn parse_null_count(j: &JsonValue) -> (r: Option<NullCount>)
    ensures
        match r {
            Some(c) => spec_null_count(j.deep_view()) == Some(c.deep_view()),
            None => spec_null_count(j.deep_view()) is None,
        },
    decreases j,
{
    broadcast use
        crate::state::lemma_deep_of,
        crate::state::lemma_vec_deep_view,
        crate::json::lemma_json_model_entries,
        crate::action::lemma_null_count_entries_model,
    ;

    match j {
        JsonValue::UInt(u) => Some(NullCount::Count(*u)),
        JsonValue::Int(i) => {
            if *i >= 0 {
                Some(NullCount::Count(*i as u64))
            } else {
                None
            }
        },
        JsonValue::Obj(entries) => {
            let ghost ev = crate::json::json_model_entries(entries@);
            proof {
                assert(ev.take(0) =~= Seq::<(Seq<char>, JsonModel)>::empty());
            }
            let mut out: Vec<(String, NullCount)> = Vec::new();
            let n = entries.len();
            for i in 0..n
                invariant
                    n == entries.len(),
                    ev == crate::json::json_model_entries(entries@),
                    out@.len() == i,
                    spec_null_entries(ev.take(i as int)) == Some(out.deep_view()),
            {
                proof {
                    assert(decreases_to!(*j => j->Obj_0));
                    assert(decreases_to!(j->Obj_0 => j->Obj_0@));
                    assert(decreases_to!(j->Obj_0@ => j->Obj_0@[i as int]));
                    assert(decreases_to!(j->Obj_0@[i as int] => j->Obj_0@[i as int].1));
                }
                match parse_null_count(&entries[i].1) {
                    Some(c) => {
                        let ghost pre = out.deep_view();
                        out.push((entries[i].0.clone(), c));
                        proof {
                            assert(ev.take(i as int + 1).drop_last() =~= ev.take(i as int));
                            assert(ev.take(i as int + 1).last() == ev[i as int]);
                            assert(out.deep_view() =~= pre.push(
                                (ev[i as int].0, spec_null_count(ev[i as int].1)->0),
                            ));
                        }
                    },
                    None => {
                        proof {
                            lemma_null_entries_fail(ev, i as int);
                        }
                        return None;
                    },
                }
            }
            proof {
                assert(ev.take(n as int) =~= ev);
                assert(crate::action::null_count_entries_model(out@) =~= out.deep_view());
            }
            Some(NullCount::Nested(out))
        },
        _ => None,
    }
}

/// The per-file statistics record: a required record count and three
/// per-column maps.
pub open spec fn spec_parse_file_stats(j: JsonModel) -> Option<FileStatsV> {
    match (
        spec_uint_field(j, "numRecords"@, u64::MAX as int),
        spec_field(j, "minValues"@),
        spec_field(j, "maxValues"@),
        spec_field(j, "nullCount"@),
    ) {
        (Some(nr), Some(JsonModel::Obj(mins)), Some(JsonModel::Obj(maxs)), Some(
            JsonModel::Obj(nulls),
        )) => match spec_null_entries(nulls) {
            Some(nc) => Some(
                FileStatsV {
                    num_records: nr,
                    min_values: spec_stat_entries(mins),
                    max_values: spec_stat_entries(maxs),
                    null_count: nc,
                },
            ),
            None => None,
        },
        _ => None,
    }
}

/// Parse the statistics record of one file.
pub fn parse_file_stats(j: &JsonValue) -> (r: Option<FileStats>)
    ensures
        match r {
            Some(fs) => spec_parse_file_stats(j.deep_view()) == Some(fs.deep_view()),
            None => spec_parse_file_stats(j.deep_view()) is None,
        },
{
    broadcast use
        crate::state::lemma_deep_of,
        crate::state::lemma_vec_deep_view,
        crate::action::lemma_stat_value_entries_model,
        crate::action::lemma_null_count_entries_model,
    ;

    let num_records = j.get_uint("numRecords", u64::MAX)?;
    let min_doc = match j.get("minValues") {
        Some(v) => v,
        None => {
            return None;
        },
    };
    let max_doc = match j.get("maxValues") {
        Some(v) => v,
        None => {
            return None;
        },
    };
    let null_doc = match j.get("nullCount") {
        Some(v) => v,
        None => {
            return None;
        },
    };
    let min_values = match min_doc {
        JsonValue::Obj(_) => {
            let v = parse_stat_value(min_doc);
            match v {
                StatValue::Struct(m) => m,
                _ => {
                    return None;
                },
            }
        },
        _ => {
            return None;
        },
    };
    let max_values = match max_doc {
        JsonValue::Obj(_) => {
            let v = parse_stat_value(max_doc);
            match v {
                StatValue::Struct(m) => m,
                _ => {
                    return None;
                },
            }
        },
        _ => {
            return None;
        },
    };
    let null_count = match null_doc {
        JsonValue::Obj(_) => match parse_null_count(null_doc) {
            Some(NullCount::Nested(m)) => m,
            _ => {
                return None;
            },
        },
        _ => {
            return None;
        },
    };
    Some(FileStats { num_records, min_values, max_values, null_count })
}

/// The statistics a text carries: its decoded document's statistics
/// record, if the text decodes and the record has the right shape.
pub open spec fn spec_parse_stats_text(s: Seq<char>) -> Option<FileStatsV> {
    match crate::json::json_doc_of(s) {
        Some(d) => spec_parse_file_stats(d),
        None => None,
    }
}

/// Decode and parse an embedded statistics string.
pub fn parse_stats_str(s: &str) -> (r: Option<FileStats>)
    ensures
        match r {
            Some(fs) => spec_parse_stats_text(s@) == Some(fs.deep_view()),
            None => spec_parse_stats_text(s@) is None,
        },
{
    let doc = crate::json::parse_json(s)?;
    parse_file_stats(&doc)
}

/// The ghost model keeps each document's variant.
pub proof fn lemma_json_variant(x: JsonValue)
    ensures
        crate::json::json_model(x) is Arr <==> x is Arr,
        crate::json::json_model(x) is Obj <==> x is Obj,
        crate::json::json_model(x) is Text <==> x is Text,
        crate::json::json_model(x) is Bool <==> x is Bool,
        crate::json::json_model(x) is Null <==> x is Null,
        crate::json::json_model(x) is NumLit <==> x is NumLit,
        crate::json::json_model(x) is Int <==> (x is Int || x is UInt),
{
}

/// A value looked up in an object stands below the entries.
pub proof fn lemma_lookup_smaller(entries: Seq<(Seq<char>, JsonModel)>, k: Seq<char>)
    requires
        lookup_entries(entries, k) is Some,
    ensures
        decreases_to!(entries => lookup_entries(entries, k)->0),
    decreases entries.len(),
{
    if entries[0].0 == k {
        assert(decreases_to!(entries => entries[0]));
        assert(decreases_to!(entries[0] => entries[0].1));
    } else {
        lemma_lookup_smaller(entries.drop_first(), k);
        assert(decreases_to!(entries => entries.drop_first()));
    }
}

/// A schema field type: a primitive name, or a struct, array or map
/// node, decided by the first structurally complete shape in that fixed
/// order.
pub open spec fn spec_parse_field_type(j: JsonModel) -> Option<FieldTypeV>
    decreases j, 1int,
{
    match j {
        JsonModel::Text(s) => Some(FieldTypeV::Primitive(s)),
        JsonModel::Obj(entries) => {
            proof {
                if lookup_entries(entries, "fields"@) is Some {
                    lemma_lookup_smaller(entries, "fields"@);
                }
                if lookup_entries(entries, "elementType"@) is Some {
                    lemma_lookup_smaller(entries, "elementType"@);
                }
                if lookup_entries(entries, "keyType"@) is Some {
                    lemma_lookup_smaller(entries, "keyType"@);
                }
                if lookup_entries(entries, "valueType"@) is Some {
                    lemma_lookup_smaller(entries, "valueType"@);
                }
                assert(decreases_to!(j => entries));
            }
            let ty = lookup_entries(entries, "type"@);
            let fv = lookup_entries(entries, "fields"@);
            let et = lookup_entries(entries, "elementType"@);
            let cn = lookup_entries(entries, "containsNull"@);
            let kt = lookup_entries(entries, "keyType"@);
            let vt = lookup_entries(entries, "valueType"@);
            let vcn = lookup_entries(entries, "valueContainsNull"@);
            if (ty matches Some(JsonModel::Text(_))) && (fv matches Some(JsonModel::Arr(_)))
                && spec_parse_fields(fv->0->Arr_0) is Some {
                Some(
                    FieldTypeV::Struct(
                        StructTypeV {
                            kind_name: ty->0->Text_0,
                            fields: spec_parse_fields(fv->0->Arr_0)->0,
                        },
                    ),
                )
            } else if (ty matches Some(JsonModel::Text(_))) && et is Some && spec_parse_field_type(
                et->0,
            ) is Some && (cn matches Some(JsonModel::Bool(_))) {
                Some(
                    FieldTypeV::Array(
                        ArrayTypeV {
                            kind_name: ty->0->Text_0,
                            element_type: Seq::empty().push(spec_parse_field_type(et->0)->0),
                            contains_null: cn->0->Bool_0,
                        },
                    ),
                )
            } else if (ty matches Some(JsonModel::Text(_))) && kt is Some && spec_parse_field_type(
                kt->0,
            ) is Some && vt is Some && spec_parse_field_type(vt->0) is Some && (vcn matches Some(JsonModel::Bool(_))) {
                Some(
                    FieldTypeV::Mapping(
                        MapTypeV {
                            kind_name: ty->0->Text_0,
                            key_type: Seq::empty().push(spec_parse_field_type(kt->0)->0),
                            value_type: Seq::empty().push(spec_parse_field_type(vt->0)->0),
                            value_contains_null: vcn->0->Bool_0,
                        },
                    ),
                )
            } else {
                None
            }
        },
        _ => None,
    }
}

/// One named schema field: name, type, nullability and a string-map of
/// metadata, all required.
pub open spec fn spec_parse_schema_field(j: JsonModel) -> Option<FieldV>
    decreases j, 2int,
{
    match j {
        JsonModel::Obj(entries) => {
            proof {
                if lookup_entries(entries, "type"@) is Some {
                    lemma_lookup_smaller(entries, "type"@);
                }
                assert(decreases_to!(j => entries));
            }
            let name = lookup_entries(entries, "name"@);
            let ty = lookup_entries(entries, "type"@);
            let nl = lookup_entries(entries, "nullable"@);
            let md = lookup_entries(entries, "metadata"@);
            if (name matches Some(JsonModel::Text(_))) && ty is Some && spec_parse_field_type(ty->0)
                is Some && (nl matches Some(JsonModel::Bool(_))) && (md matches Some(JsonModel::Obj(_))) && spec_str_entries(md->0->Obj_0) is Some {
                Some(
                    FieldV {
                        name: name->0->Text_0,
                        field_type: spec_parse_field_type(ty->0)->0,
                        nullable: nl->0->Bool_0,
                        metadata: spec_str_entries(md->0->Obj_0)->0,
                    },
                )
            } else {
                None
            }
        },
        _ => None,
    }
}

/// A run of schema fields; one bad field refuses them all.
pub open spec fn spec_parse_fields(items: Seq<JsonModel>) -> Option<Seq<FieldV>>
    decreases items, 9int,
{
    if items.len() == 0 {
        Some(Seq::empty())
    } else {
        match spec_parse_fields(items.drop_last()) {
            None => None,
            Some(pre) => match spec_parse_schema_field(items.last()) {
                Some(f) => Some(pre.push(f)),
                None => None,
            },
        }
    }
}

proof fn lemma_parse_fields_fail(items: Seq<JsonModel>, i: int)
    requires
        0 <= i < items.len(),
        spec_parse_schema_field(items[i]) is None,
    ensures
        spec_parse_fields(items) is None,
    decreases items.len(),
{
    if i < items.len() - 1 {
        assert(items.drop_last()[i] == items[i]);
        lemma_parse_fields_fail(items.drop_last(), i);
    }
}

/// Parse one schema field type.
pub fn parse_field_type(j: &JsonValue) -> (r: Option<FieldType>)
    ensures
        match r {
            Some(t) => spec_parse_field_type(j.deep_view()) == Some(t.deep_view()),
            None => spec_parse_field_type(j.deep_view()) is None,
        },
    decreases j, 1int,
{
    match j {
        JsonValue::Text(s) => Some(FieldType::Primitive(s.clone())),
        JsonValue::Obj(_) => {
            let st = parse_struct_attempt(j);
            if let Some(t) = st {
                return Some(t);
            }
            let ghost jv = j.deep_view();
            // array attempt
            if let Some(tn) = j.get_str("type") {
                if let Some(et_doc) = j.get("elementType") {
                    proof {
                        let i = choose|i: int|
                            0 <= i < j->Obj_0@.len() && *et_doc == j->Obj_0@[i].1;
                        assert(decreases_to!(*j => j->Obj_0));
                        assert(decreases_to!(j->Obj_0 => j->Obj_0@));
                        assert(decreases_to!(j->Obj_0@ => j->Obj_0@[i]));
                        assert(decreases_to!(j->Obj_0@[i] => j->Obj_0@[i].1));
                    }
                    if let Some(elem) = parse_field_type(et_doc) {
                        if let Some(cn) = j.get_bool("containsNull") {
                            let r = FieldType::Array(
                                ArrayType {
                                    kind_name: tn,
                                    element_type: Box::new(elem),
                                    contains_null: cn,
                                },
                            );
                            return Some(r);
                        }
                    }
                }
            }
            // map attempt
            if let Some(tn) = j.get_str("type") {
                if let Some(kt_doc) = j.get("keyType") {
                    proof {
                        let i = choose|i: int|
                            0 <= i < j->Obj_0@.len() && *kt_doc == j->Obj_0@[i].1;
                        assert(decreases_to!(*j => j->Obj_0));
                        assert(decreases_to!(j->Obj_0 => j->Obj_0@));
                        assert(decreases_to!(j->Obj_0@ => j->Obj_0@[i]));
                        assert(decreases_to!(j->Obj_0@[i] => j->Obj_0@[i].1));
                    }
                    if let Some(kt) = parse_field_type(kt_doc) {
                        if let Some(vt_doc) = j.get("valueType") {
                            proof {
                                let i = choose|i: int|
                                    0 <= i < j->Obj_0@.len() && *vt_doc == j->Obj_0@[i].1;
                                assert(decreases_to!(*j => j->Obj_0));
                                assert(decreases_to!(j->Obj_0 => j->Obj_0@));
                                assert(decreases_to!(j->Obj_0@ => j->Obj_0@[i]));
                                assert(decreases_to!(j->Obj_0@[i] => j->Obj_0@[i].1));
                            }
                            if let Some(vt) = parse_field_type(vt_doc) {
                                if let Some(vcn) = j.get_bool("valueContainsNull") {
                                    let r = FieldType::Mapping(
                                        MapType {
                                            kind_name: tn,
                                            key_type: Box::new(kt),
                                            value_type: Box::new(vt),
                                            value_contains_null: vcn,
                                        },
                                    );
                                    return Some(r);
                                }
                            }
                        }
                    }
                }
            }
            None
        },
        _ => {
            proof {
                lemma_json_variant(*j);
            }
            None
        },
    }
}

/// The struct-shape attempt of a field type.
fn parse_struct_attempt(j: &JsonValue) -> (r: Option<FieldType>)
    requires
        j is Obj,
    ensures
        ({
            let entries = j.deep_view()->Obj_0;
            let ty = lookup_entries(entries, "type"@);
            let fv = lookup_entries(entries, "fields"@);
            let ok = (ty matches Some(JsonModel::Text(_))) && (fv matches Some(JsonModel::Arr(_)))
                && spec_parse_fields(fv->0->Arr_0) is Some;
            match r {
                Some(t) => ok && t.deep_view() == FieldTypeV::Struct(
                    StructTypeV {
                        kind_name: ty->0->Text_0,
                        fields: spec_parse_fields(fv->0->Arr_0)->0,
                    },
                ),
                None => !ok,
            }
        }),
    decreases j, 0int,
{
    proof {
        lemma_json_variant(*j);
    }
    let tn = match j.get_str("type") {
        Some(t) => t,
        None => {
            return None;
        },
    };
    let fields_doc = match j.get("fields") {
        Some(v) => v,
        None => {
            return None;
        },
    };
    match fields_doc {
        JsonValue::Arr(items) => {
            proof {
                let i = choose|i: int|
                    0 <= i < j->Obj_0@.len() && *fields_doc == j->Obj_0@[i].1;
                assert(decreases_to!(*j => j->Obj_0));
                assert(decreases_to!(j->Obj_0 => j->Obj_0@));
                assert(decreases_to!(j->Obj_0@ => j->Obj_0@[i]));
                assert(decreases_to!(j->Obj_0@[i] => j->Obj_0@[i].1));
                assert(decreases_to!(*fields_doc => fields_doc->Arr_0));
                assert(decreases_to!(fields_doc->Arr_0 => fields_doc->Arr_0@));
            }
            match parse_fields(items) {
                Some(fs) => {
                    proof {
                        crate::action::lemma_field_seq_model(fs@);
                        crate::state::lemma_deep_of(fs@);
                        assert(crate::action::field_seq_model(fs@) =~= fs.deep_view());
                    }
                    Some(FieldType::Struct(StructType { kind_name: tn, fields: fs }))
                },
                None => None,
            }
        },
        _ => {
            proof {
                lemma_json_variant(*fields_doc);
            }
            None
        },
    }
}

/// Parse a run of schema fields.
fn parse_fields(items: &Vec<JsonValue>) -> (r: Option<Vec<Field>>)
    ensures
        match r {
            Some(fs) => spec_parse_fields(crate::json::json_model_seq(items@)) == Some(
                fs.deep_view(),
            ),
            None => spec_parse_fields(crate::json::json_model_seq(items@)) is None,
        },
    decreases items@, 9int,
{
    broadcast use
        crate::state::lemma_deep_of,
        crate::state::lemma_vec_deep_view,
        crate::json::lemma_json_model_seq,
    ;

    let ghost iv = crate::json::json_model_seq(items@);
    proof {
        assert(iv.take(0) =~= Seq::<JsonModel>::empty());
    }
    let mut out: Vec<Field> = Vec::new();
    let n = items.len();
    for i in 0..n
        invariant
            n == items.len(),
            iv == crate::json::json_model_seq(items@),
            iv.len() == n,
            spec_parse_fields(iv.take(i as int)) == Some(out.deep_view()),
    {
        proof {
            assert(decreases_to!(items@ => items@[i as int]));
        }
        match parse_schema_field(&items[i]) {
            Some(f) => {
                let ghost pre = out.deep_view();
                out.push(f);
                proof {
                    assert(iv.take(i as int + 1).drop_last() =~= iv.take(i as int));
                    assert(iv.take(i as int + 1).last() == iv[i as int]);
                    assert(out.deep_view() =~= pre.push(
                        spec_parse_schema_field(iv[i as int])->0,
                    ));
                }
            },
            None => {
                proof {
                    lemma_parse_fields_fail(iv, i as int);
                }
                return None;
            },
        }
    }
    proof {
        assert(iv.take(n as int) =~= iv);
    }
    Some(out)
}

/// Parse one named schema field.
fn parse_schema_field(j: &JsonValue) -> (r: Option<Field>)
    ensures
        match r {
            Some(f) => spec_parse_schema_field(j.deep_view()) == Some(f.deep_view()),
            None => spec_parse_schema_field(j.deep_view()) is None,
        },
    decreases j, 2int,
{
    match j {
        JsonValue::Obj(_) => {
            let name = match j.get_str("name") {
                Some(s) => s,
                None => {
                    return None;
                },
            };
            let ty_doc = match j.get("type") {
                Some(v) => v,
                None => {
                    return None;
                },
            };
            proof {
                let i = choose|i: int| 0 <= i < j->Obj_0@.len() && *ty_doc == j->Obj_0@[i].1;
                assert(decreases_to!(*j => j->Obj_0));
                assert(decreases_to!(j->Obj_0 => j->Obj_0@));
                assert(decreases_to!(j->Obj_0@ => j->Obj_0@[i]));
                assert(decreases_to!(j->Obj_0@[i] => j->Obj_0@[i].1));
            }
            let field_type = match parse_field_type(ty_doc) {
                Some(t) => t,
                None => {
                    return None;
                },
            };
            let nullable = match j.get_bool("nullable") {
                Some(b) => b,
                None => {
                    return None;
                },
            };
            let metadata = match j.get_str_map("metadata") {
                Some(m) => m,
                None => {
                    return None;
                },
            };
            Some(Field { name, field_type, nullable, metadata })
        },
        _ => None,
    }
}

/// The table schema: a root type name and its fields.
pub open spec fn spec_parse_schema(j: JsonModel) -> Option<SchemaV> {
    match (spec_str_field(j, "type"@), spec_field(j, "fields"@)) {
        (Some(t), Some(JsonModel::Arr(items))) => match spec_parse_fields(items) {
            Some(fs) => Some(SchemaV { kind_name: t, fields: fs }),
            None => None,
        },
        _ => None,
    }
}

/// Parse a schema document.
pub fn parse_schema(j: &JsonValue) -> (r: Option<Schema>)
    ensures
        match r {
            Some(sc) => spec_parse_schema(j.deep_view()) == Some(sc.deep_view()),
            None => spec_parse_schema(j.deep_view()) is None,
        },
{
    let kind_name = j.get_str("type")?;
    let fields_doc = match j.get("fields") {
        Some(v) => v,
        None => {
            return None;
        },
    };
    match fields_doc {
        JsonValue::Arr(items) => match parse_fields(items) {
            Some(fs) => {
                proof {
                    crate::action::lemma_field_seq_model(fs@);
                    crate::state::lemma_deep_of(fs@);
                    assert(crate::action::field_seq_model(fs@) =~= fs.deep_view());
                }
                Some(Schema { kind_name, fields: fs })
            },
            None => None,
        },
        _ => {
            proof {
                lemma_json_variant(*fields_doc);
            }
            None
        },
    }
}

/// The schema a text carries: its decoded document's schema record, if
/// the text decodes and the record has the right shape.
pub open spec fn spec_parse_schema_text(s: Seq<char>) -> Option<SchemaV> {
    match crate::json::json_doc_of(s) {
        Some(d) => spec_parse_schema(d),
        None => None,
    }
}

/// Decode and parse an embedded schema string.
pub fn parse_schema_str(s: &str) -> (r: Option<Schema>)
    ensures
        match r {
            Some(sc) => spec_parse_schema_text(s@) == Some(sc.deep_view()),
            None => spec_parse_schema_text(s@) is None,
        },
{
    let doc = crate::json::parse_json(s)?;
    parse_schema(&doc)
}

/// The storage-format record.
pub open spec fn spec_parse_format(j: JsonModel) -> Option<StorageFormatV> {
    match (spec_str_field(j, "provider"@), spec_str_map_field(j, "options"@)) {
        (Some(p), Some(opts)) => Some(StorageFormatV { provider: p, options: opts }),
        _ => None,
    }
}

/// Parse a storage-format payload.
pub fn parse_format(j: &JsonValue) -> (r: Option<StorageFormat>)
    ensures
        match r {
            Some(f) => spec_parse_format(j.deep_view()) == Some(f.deep_view()),
            None => spec_parse_format(j.deep_view()) is None,
        },
{
    let provider = j.get_str("provider")?;
    let options = j.get_str_map("options")?;
    Some(StorageFormat { provider, options })
}

/// The metadata record short of its schema: the schema arrives as a
/// JSON-encoded string and takes a second decode pass.
pub struct MetadataShell {
    pub id: Seq<char>,
    pub name: Option<Seq<char>>,
    pub description: Option<Seq<char>>,
    pub format: StorageFormatV,
    pub schema_raw: Seq<char>,
    pub partition_columns: Seq<Seq<char>>,
}

pub open spec fn spec_parse_metadata_shell(j: JsonModel) -> Option<MetadataShell> {
    match (
        spec_str_field(j, "id"@),
        spec_opt_str_field(j, "name"@),
        spec_opt_str_field(j, "description"@),
        spec_field(j, "format"@),
        spec_str_field(j, "schemaString"@),
        spec_str_arr_field(j, "partitionColumns"@),
    ) {
        (Some(id), Some(name), Some(desc), Some(fj), Some(schema_raw), Some(cols)) => {
            match spec_parse_format(fj) {
                Some(f) => Some(
                    MetadataShell {
                        id,
                        name,
                        description: desc,
                        format: f,
                        schema_raw,
                        partition_columns: cols,
                    },
                ),
                None => None,
            }
        },
        _ => None,
    }
}

/// The metadata record a shell and a resolved schema make.
pub open spec fn metadata_of_shell(sh: MetadataShell, sc: SchemaV) -> MetadataV {
    MetadataV {
        id: sh.id,
        name: sh.name,
        description: sh.description,
        format: sh.format,
        schema: sc,
        partition_columns: sh.partition_columns,
    }
}

/// The whole metadata record of a payload: its shell, with the schema
/// resolved out of the embedded string.
pub open spec fn spec_parse_metadata_full(j: JsonModel) -> Option<MetadataV> {
    match spec_parse_metadata_shell(j) {
        None => None,
        Some(sh) => match spec_parse_schema_text(sh.schema_raw) {
            None => None,
            Some(sc) => Some(metadata_of_shell(sh, sc)),
        },
    }
}

/// Parse a metadata action payload, the embedded schema string included.
pub fn parse_metadata(j: &JsonValue) -> (r: Option<Metadata>)
    ensures
        match r {
            Some(m) => spec_parse_metadata_full(j.deep_view()) == Some(m.deep_view()),
            None => spec_parse_metadata_full(j.deep_view()) is None,
        },
{
    let id = j.get_str("id")?;
    let name = j.get_opt_str("name")?;
    let description = j.get_opt_str("description")?;
    let format_doc = match j.get("format") {
        Some(v) => v,
        None => {
            return None;
        },
    };
    let schema_raw = j.get_str("schemaString")?;
    let partition_columns = j.get_str_arr("partitionColumns")?;
    let format = parse_format(format_doc)?;
    let ghost sh = spec_parse_metadata_shell(j.deep_view())->0;
    proof {
        assert(spec_parse_metadata_shell(j.deep_view()) is Some);
        assert(sh.schema_raw == schema_raw@);
    }
    let schema = parse_schema_str(schema_raw.as_str())?;
    let m = Metadata { id, name, description, format, schema, partition_columns };
    proof {
        assert(m.deep_view() == metadata_of_shell(sh, schema.deep_view()));
    }
    Some(m)
}

/// The add record short of its statistics: `stats` arrives as a
/// JSON-encoded string and takes a second decode pass.
pub struct AddShell {
    pub path: Seq<char>,
    pub partition_values: Seq<(Seq<char>, Seq<char>)>,
    pub size: u64,
    pub modification_time: u64,
    pub data_change: bool,
    pub stats_raw: Seq<char>,
    pub tags: Option<Seq<char>>,
    pub base_row_id: Option<Seq<char>>,
    pub default_row_commit_version: Option<Seq<char>>,
    pub clustering_provider: Option<Seq<char>>,
}

pub open spec fn spec_parse_add_shell(j: JsonModel) -> Option<AddShell> {
    match (
        spec_str_field(j, "path"@),
        spec_str_map_field(j, "partitionValues"@),
        spec_uint_field(j, "size"@, u64::MAX as int),
        spec_uint_field(j, "modificationTime"@, u64::MAX as int),
        spec_bool_field(j, "dataChange"@),
        spec_str_field(j, "stats"@),
        spec_opt_str_field(j, "tags"@),
        spec_opt_str_field(j, "baseRowId"@),
        spec_opt_str_field(j, "defaultRowCommitVersion"@),
        spec_opt_str_field(j, "clusteringProvider"@),
    ) {
        (
            Some(path),
            Some(pv),
            Some(size),
            Some(mt),
            Some(dc),
            Some(stats_raw),
            Some(tags),
            Some(brid),
            Some(drcv),
            Some(cp),
        ) => Some(
            AddShell {
                path,
                partition_values: pv,
                size,
                modification_time: mt,
                data_change: dc,
                stats_raw,
                tags,
                base_row_id: brid,
                default_row_commit_version: drcv,
                clustering_provider: cp,
            },
        ),
        _ => None,
    }
}

/// The add record a shell and resolved statistics make.
pub open spec fn add_of_shell(sh: AddShell, st: FileStatsV) -> FileAddV {
    FileAddV {
        path: sh.path,
        partition_values: sh.partition_values,
        size: sh.size,
        modification_time: sh.modification_time,
        data_change: sh.data_change,
        stats: st,
        tags: sh.tags,
        base_row_id: sh.base_row_id,
        default_row_commit_version: sh.default_row_commit_version,
        clustering_provider: sh.clustering_provider,
    }
}

/// The whole add record of a payload: its shell, with the statistics
/// resolved out of the embedded string.
pub open spec fn spec_parse_add_full(j: JsonModel) -> Option<FileAddV> {
    match spec_parse_add_shell(j) {
        None => None,
        Some(sh) => match spec_parse_stats_text(sh.stats_raw) {
            None => None,
            Some(st) => Some(add_of_shell(sh, st)),
        },
    }
}

/// Parse an add action payload, the embedded statistics string included.
pub fn parse_add(j: &JsonValue) -> (r: Option<FileAdd>)
    ensures
        match r {
            Some(a) => spec_parse_add_full(j.deep_view()) == Some(a.deep_view()),
            None => spec_parse_add_full(j.deep_view()) is None,
        },
{
    let path = j.get_str("path")?;
    let partition_values = j.get_str_map("partitionValues")?;
    let size = j.get_uint("size", u64::MAX)?;
    let modification_time = j.get_uint("modificationTime", u64::MAX)?;
    let data_change = j.get_bool("dataChange")?;
    let stats_raw = j.get_str("stats")?;
    let tags = j.get_opt_str("tags")?;
    let base_row_id = j.get_opt_str("baseRowId")?;
    let default_row_commit_version = j.get_opt_str("defaultRowCommitVersion")?;
    let clustering_provider = j.get_opt_str("clusteringProvider")?;
    let ghost sh = spec_parse_add_shell(j.deep_view())->0;
    proof {
        assert(spec_parse_add_shell(j.deep_view()) is Some);
        assert(sh.stats_raw == stats_raw@);
    }
    let stats = parse_stats_str(stats_raw.as_str())?;
    let a = FileAdd {
        path,
        partition_values,
        size,
        modification_time,
        data_change,
        stats,
        tags,
        base_row_id,
        default_row_commit_version,
        clustering_provider,
    };
    proof {
        assert(a.deep_view() == add_of_shell(sh, a.deep_view().stats));
    }
    Some(a)
}

/// The single entry of an action document: every log line is an object
/// with exactly one key, which names the action.
pub open spec fn spec_action_entry(j: JsonModel) -> Option<(Seq<char>, JsonModel)> {
    match j {
        JsonModel::Obj(entries) => if entries.len() == 1 {
            Some(entries[0])
        } else {
            None
        },
        _ => None,
    }
}

/// The action a whole line document carries: the single key names the
/// variant, and its payload must parse whole, embedded strings included.
pub open spec fn spec_parse_action_full(j: JsonModel) -> Option<DeltaActionV> {
    match spec_action_entry(j) {
        None => None,
        Some(e) => if e.0 == "protocol"@ {
            match spec_parse_protocol(e.1) {
                Some(p) => Some(DeltaActionV::Protocol(p)),
                None => None,
            }
        } else if e.0 == "metaData"@ {
            match spec_parse_metadata_full(e.1) {
                Some(m) => Some(DeltaActionV::Metadata(m)),
                None => None,
            }
        } else if e.0 == "add"@ {
            match spec_parse_add_full(e.1) {
                Some(a) => Some(DeltaActionV::Add(a)),
                None => None,
            }
        } else if e.0 == "remove"@ {
            match spec_parse_remove(e.1) {
                Some(fr) => Some(DeltaActionV::Remove(fr)),
                None => None,
            }
        } else if e.0 == "commitInfo"@ {
            match spec_parse_commit_info(e.1) {
                Some(c) => Some(DeltaActionV::CommitInfo(c)),
                None => None,
            }
        } else {
            None
        },
    }
}

/// Parse one log line's document into an action: exactly the action the
/// document carries, or nothing when the document carries none.
pub fn parse_action(j: &JsonValue) -> (r: Option<DeltaAction>)
    ensures
        match r {
            Some(a) => spec_parse_action_full(j.deep_view()) == Some(a.deep_view()),
            None => spec_parse_action_full(j.deep_view()) is None,
        },
{
    broadcast use crate::json::lemma_json_model_entries;

    match j {
        JsonValue::Obj(entries) => {
            if entries.len() != 1 {
                proof {
                    lemma_json_variant(*j);
                    crate::json::lemma_json_model_entries(entries@);
                    assert(spec_action_entry(j.deep_view()) is None);
                }
                return None;
            }
            let key = &entries[0].0;
            let payload = &entries[0].1;
            proof {
                lemma_json_variant(*j);
                crate::json::lemma_json_model_entries(entries@);
                assert(j.deep_view()->Obj_0[0] == (entries@[0].0@, crate::json::json_model(
                    entries@[0].1,
                )));
                reveal_strlit("protocol");
                reveal_strlit("metaData");
                reveal_strlit("add");
                reveal_strlit("remove");
                reveal_strlit("commitInfo");
                assert(spec_action_entry(j.deep_view()) == Some(
                    (entries@[0].0@, crate::json::json_model(entries@[0].1)),
                ));
            }
            let ghost e = spec_action_entry(j.deep_view())->0;
            proof {
                assert(e.0 == entries@[0].0@);
                assert(e.1 == payload.deep_view());
            }
            if crate::json::str_eq(key.as_str(), "protocol") {
                match parse_protocol(payload) {
                    Some(p) => {
                        proof {
                            assert(e.0 == "protocol"@ && spec_parse_protocol(e.1) == Some(p));
                        }
                        Some(DeltaAction::Protocol(p))
                    },
                    None => {
                        proof {
                            assert(spec_parse_protocol(e.1) is None);
                        }
                        None
                    },
                }
            } else if crate::json::str_eq(key.as_str(), "metaData") {
                match parse_metadata(payload) {
                    Some(m) => {
                        proof {
                            assert(e.0 == "metaData"@ && spec_parse_metadata_full(e.1) == Some(
                                m.deep_view(),
                            ));
                        }
                        Some(DeltaAction::Metadata(m))
                    },
                    None => {
                        proof {
                            assert(spec_parse_metadata_full(e.1) is None);
                        }
                        None
                    },
                }
            } else if crate::json::str_eq(key.as_str(), "add") {
                match parse_add(payload) {
                    Some(a) => {
                        proof {
                            assert(e.0 == "add"@ && spec_parse_add_full(e.1) == Some(
                                a.deep_view(),
                            ));
                        }
                        Some(DeltaAction::Add(a))
                    },
                    None => {
                        proof {
                            assert(spec_parse_add_full(e.1) is None);
                        }
                        None
                    },
                }
            } else if crate::json::str_eq(key.as_str(), "remove") {
                match parse_remove(payload) {
                    Some(fr) => {
                        proof {
                            assert(e.0 == "remove"@ && spec_parse_remove(e.1) == Some(
                                fr.deep_view(),
                            ));
                        }
                        Some(DeltaAction::Remove(fr))
                    },
                    None => {
                        proof {
                            assert(spec_parse_remove(e.1) is None);
                        }
                        None
                    },
                }
            } else if crate::json::str_eq(key.as_str(), "commitInfo") {
                match parse_commit_info(payload) {
                    Some(c) => {
                        proof {
                            assert(e.0 == "commitInfo"@ && spec_parse_commit_info(e.1) == Some(
                                c.deep_view(),
                            ));
                        }
                        Some(DeltaAction::CommitInfo(c))
                    },
                    None => {
                        proof {
                            assert(spec_parse_commit_info(e.1) is None);
                        }
                        None
                    },
                }
            } else {
                proof {
                    assert(e.0 != "protocol"@ && e.0 != "metaData"@ && e.0 != "add"@ && e.0
                        != "remove"@ && e.0 != "commitInfo"@);
                }
                None
            }
        },
        _ => {
            proof {
                lemma_json_variant(*j);
            }
            None
        },
    }
}

/// A fresh, empty per-file record.
pub open spec fn spec_empty_log(path: Seq<char>) -> TransactionLogV {
    TransactionLogV {
        path,
        protocol: None,
        metadata: None,
        adds: Seq::empty(),
        removes: Seq::empty(),
        commit_info: None,
    }
}

/// One action folded into the record: singleton fields keep the last
/// writer, the add and remove lists keep file order.
pub open spec fn spec_apply_action(t: TransactionLogV, a: DeltaActionV) -> TransactionLogV {
    match a {
        DeltaActionV::Protocol(p) => TransactionLogV { protocol: Some(p), ..t },
        DeltaActionV::Metadata(m) => TransactionLogV { metadata: Some(m), ..t },
        DeltaActionV::Add(fa) => TransactionLogV { adds: t.adds.push(fa), ..t },
        DeltaActionV::Remove(fr) => TransactionLogV { removes: t.removes.push(fr), ..t },
        DeltaActionV::CommitInfo(c) => TransactionLogV { commit_info: Some(c), ..t },
    }
}

/// Fold one action into a per-file record.
pub fn apply_action(t: &mut TransactionLog, a: DeltaAction)
    ensures
        final(t).deep_view() == spec_apply_action(old(t).deep_view(), a.deep_view()),
{
    broadcast use crate::state::lemma_deep_of, crate::state::lemma_vec_deep_view;

    match a {
        DeltaAction::Protocol(p) => {
            t.protocol = Some(p);
        },
        DeltaAction::Metadata(m) => {
            t.metadata = Some(m);
        },
        DeltaAction::Add(fa) => {
            let ghost pre = t.adds@;
            let ghost fav = fa.deep_view();
            t.adds.push(fa);
            proof {
                assert(t.adds@ == pre.push(t.adds@.last()));
                assert(t.deep_view().adds =~= crate::state::deep_of(pre).push(fav));
            }
        },
        DeltaAction::Remove(fr) => {
            let ghost pre = t.removes@;
            let ghost frv = fr.deep_view();
            t.removes.push(fr);
            proof {
                assert(t.removes@ == pre.push(t.removes@.last()));
                assert(t.deep_view().removes =~= crate::state::deep_of(pre).push(frv));
            }
        },
        DeltaAction::CommitInfo(c) => {
            t.commit_info = Some(c);
        },
    }
}

/// A per-file parse failure: the one-based number of the line that
/// refused to parse.
#[derive(Debug, Clone, Copy, PartialEq, Eq, Structural)]
pub struct LogParseError {
    pub line: usize,
}

/// The action one line carries: its decoded document's action, if the
/// line decodes and the document carries one.
pub open spec fn spec_parse_line(line: Seq<char>) -> Option<DeltaActionV> {
    match crate::json::json_doc_of(line) {
        Some(d) => spec_parse_action_full(d),
        None => None,
    }
}

/// The record the lines from position `i` on fold onto `t`, or the
/// one-based number of the first line from there that carries no action.
pub open spec fn spec_parse_log_from(
    t: TransactionLogV,
    lines: Seq<Seq<char>>,
    i: int,
) -> Result<TransactionLogV, int>
    decreases lines.len() - i,
{
    if i < 0 || i >= lines.len() {
        Ok(t)
    } else {
        match spec_parse_line(lines[i]) {
            None => Err(i + 1),
            Some(a) => spec_parse_log_from(spec_apply_action(t, a), lines, i + 1),
        }
    }
}

/// One log file's record: the fold of its lines' actions over the empty
/// record, or the one-based number of the first line that decodes to no
/// document or matches no action shape. All or nothing: an error leaves
/// no partial record.
pub open spec fn spec_parse_log(path: Seq<char>, lines: Seq<Seq<char>>) -> Result<
    TransactionLogV,
    int,
> {
    spec_parse_log_from(spec_empty_log(path), lines, 0)
}

/// Parse one log file's lines into its record: exactly the fold of the
/// lines' actions, or the first failing line's one-based number.
pub fn parse_log_lines(path: String, lines: &Vec<String>) -> (r: Result<
    TransactionLog,
    LogParseError,
>)
    ensures
        match r {
            Ok(t) => spec_parse_log(path@, lines.deep_view()) == Ok::<TransactionLogV, int>(
                t.deep_view(),
            ),
            Err(e) => spec_parse_log(path@, lines.deep_view()) == Err::<TransactionLogV, int>(
                e.line as int,
            ) && 1 <= e.line <= lines@.len(),
        },
{
    broadcast use crate::state::lemma_deep_of, crate::state::lemma_vec_deep_view;

    let mut record = TransactionLog {
        path,
        protocol: None,
        metadata: None,
        adds: Vec::new(),
        removes: Vec::new(),
        commit_info: None,
    };
    let ghost path_v = record.path@;
    let ghost ld = lines.deep_view();
    proof {
        assert(record.deep_view().adds =~= Seq::<FileAddV>::empty());
        assert(record.deep_view().removes =~= Seq::<FileRemoveV>::empty());
        assert(record.deep_view() == spec_empty_log(path_v));
    }
    let n = lines.len();
    for i in 0..n
        invariant
            n == lines.len(),
            ld == lines.deep_view(),
            ld.len() == n,
            spec_parse_log(path_v, ld) == spec_parse_log_from(record.deep_view(), ld, i as int),
    {
        proof {
            assert(crate::state::deep_of(lines@)[i as int] == lines@[i as int].deep_view());
        }
        let doc = match crate::json::parse_json(lines[i].as_str()) {
            Some(d) => d,
            None => {
                proof {
                    assert(spec_parse_line(ld[i as int]) is None);
                }
                return Err(LogParseError { line: i + 1 });
            },
        };
        let action = match parse_action(&doc) {
            Some(a) => a,
            None => {
                proof {
                    assert(spec_parse_line(ld[i as int]) is None);
                }
                return Err(LogParseError { line: i + 1 });
            },
        };
        let ghost av = action.deep_view();
        proof {
            assert(spec_parse_line(ld[i as int]) == Some(av));
        }
        apply_action(&mut record, action);
    }
    Ok(record)
}

} // verus!
