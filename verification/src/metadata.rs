//! A fixed-layout reader for a table's opening commit file: its first
//! four lines carry the protocol, the table metadata, one operation and
//! the commit record, in that order. The embedded statistics and schema
//! strings stay raw here; this reader only lifts the line shapes.

use vstd::prelude::*;

use crate::action::{MetricsWrite, Protocol, StorageFormat, StorageFormatV};
use crate::json::{JsonModel, JsonValue};
use crate::parse::{
    spec_parse_add_shell, spec_parse_format, spec_parse_metrics_write, spec_parse_protocol,
    AddShell, LogParseError,
};

verus! {

/// A file added by the opening commit, its statistics text unresolved.
#[derive(Debug)]
pub struct MetadataDeltaOperationAdd {
    pub path: String,
    pub partition_values: Vec<(String, String)>,
    pub size: u64,
    pub modification_time: u64,
    pub data_change: bool,
    pub stats: String,
    pub tags: Option<String>,
    pub base_row_id: Option<String>,
    pub default_row_commit_version: Option<String>,
    pub clustering_provider: Option<String>,
}

impl DeepView for MetadataDeltaOperationAdd {
    type V = AddShell;

    open spec fn deep_view(&self) -> AddShell {
        AddShell {
            path: self.path@,
            partition_values: self.partition_values.deep_view(),
            size: self.size,
            modification_time: self.modification_time,
            data_change: self.data_change,
            stats_raw: self.stats@,
            tags: self.tags.deep_view(),
            base_row_id: self.base_row_id.deep_view(),
            default_row_commit_version: self.default_row_commit_version.deep_view(),
            clustering_provider: self.clustering_provider.deep_view(),
        }
    }
}

/// A file removed by the opening commit; the wire form carries nothing.
#[derive(Debug, PartialEq, Eq, Structural)]
pub struct MetadataDeltaOperationRemove;

/// The opening commit's one operation.
#[derive(Debug)]
pub enum MetadataDeltaOperation {
    Add(MetadataDeltaOperationAdd),
    Remove(MetadataDeltaOperationRemove),
}

/// Ghost model of [`MetadataDeltaOperation`].
pub enum MetadataDeltaOperationV {
    Add(AddShell),
    Remove,
}

impl DeepView for MetadataDeltaOperation {
    type V = MetadataDeltaOperationV;

    open spec fn deep_view(&self) -> MetadataDeltaOperationV {
        match *self {
            MetadataDeltaOperation::Add(ref a) => MetadataDeltaOperationV::Add(a.deep_view()),
            MetadataDeltaOperation::Remove(_) => MetadataDeltaOperationV::Remove,
        }
    }
}

/// The opening commit's record; its metrics always carry the write
/// shape.
#[derive(Debug)]
pub struct MetadataDeltaCommit {
    pub timestamp: u64,
    pub operation: String,
    pub operation_parameters: Vec<(String, String)>,
    pub engine_info: String,
    pub operation_metrics: MetricsWrite,
    pub client_version: String,
}

/// Ghost model of [`MetadataDeltaCommit`].
pub struct MetadataDeltaCommitV {
    pub timestamp: u64,
    pub operation: Seq<char>,
    pub operation_parameters: Seq<(Seq<char>, Seq<char>)>,
    pub engine_info: Seq<char>,
    pub operation_metrics: MetricsWrite,
    pub client_version: Seq<char>,
}

impl DeepView for MetadataDeltaCommit {
    type V = MetadataDeltaCommitV;

    open spec fn deep_view(&self) -> MetadataDeltaCommitV {
        MetadataDeltaCommitV {
            timestamp: self.timestamp,
            operation: self.operation@,
            operation_parameters: self.operation_parameters.deep_view(),
            engine_info: self.engine_info@,
            operation_metrics: self.operation_metrics,
            client_version: self.client_version@,
        }
    }
}

/// The table metadata of the opening commit, its schema text unresolved.
#[derive(Debug)]
pub struct MetadataDeltaMetadata {
    pub id: String,
    pub name: Option<String>,
    pub description: Option<String>,
    pub format: StorageFormat,
    pub schema_string: String,
    pub partition_columns: Vec<String>,
}

/// Ghost model of [`MetadataDeltaMetadata`].
pub struct MetadataDeltaMetadataV {
    pub id: Seq<char>,
    pub name: Option<Seq<char>>,
    pub description: Option<Seq<char>>,
    pub format: StorageFormatV,
    pub schema_string: Seq<char>,
    pub partition_columns: Seq<Seq<char>>,
}

impl DeepView for MetadataDeltaMetadata {
    type V = MetadataDeltaMetadataV;

    open spec fn deep_view(&self) -> MetadataDeltaMetadataV {
        MetadataDeltaMetadataV {
            id: self.id@,
            name: self.name.deep_view(),
            description: self.description.deep_view(),
            format: self.format.deep_view(),
            schema_string: self.schema_string@,
            partition_columns: self.partition_columns.deep_view(),
        }
    }
}

/// Everything the opening commit file carries.
#[derive(Debug)]
pub struct MetadataDelta {
    pub protocol: Protocol,
    pub metadata: MetadataDeltaMetadata,
    pub operation: MetadataDeltaOperation,
    pub commit: MetadataDeltaCommit,
}

/// Ghost model of [`MetadataDelta`].
pub struct MetadataDeltaV {
    pub protocol: Protocol,
    pub metadata: MetadataDeltaMetadataV,
    pub operation: MetadataDeltaOperationV,
    pub commit: MetadataDeltaCommitV,
}

impl DeepView for MetadataDelta {
    type V = MetadataDeltaV;

    open spec fn deep_view(&self) -> MetadataDeltaV {
        MetadataDeltaV {
            protocol: self.protocol,
            metadata: self.metadata.deep_view(),
            operation: self.operation.deep_view(),
            commit: self.commit.deep_view(),
        }
    }
}

/// The metadata line's payload.
pub open spec fn spec_parse_md_metadata(j: JsonModel) -> Option<MetadataDeltaMetadataV> {
    match (
        crate::parse::spec_str_field(j, "id"@),
        crate::parse::spec_opt_str_field(j, "name"@),
        crate::parse::spec_opt_str_field(j, "description"@),
        crate::parse::spec_field(j, "format"@),
        crate::parse::spec_str_field(j, "schemaString"@),
        crate::parse::spec_str_arr_field(j, "partitionColumns"@),
    ) {
        (Some(id), Some(name), Some(desc), Some(fj), Some(schema_string), Some(cols)) => {
            match spec_parse_format(fj) {
                Some(f) => Some(
                    MetadataDeltaMetadataV {
                        id,
                        name,
                        description: desc,
                        format: f,
                        schema_string,
                        partition_columns: cols,
                    },
                ),
                None => None,
            }
        },
        _ => None,
    }
}

/// Parse the metadata line's payload.
pub fn parse_md_metadata(j: &JsonValue) -> (r: Option<MetadataDeltaMetadata>)
    ensures
        match r {
            Some(m) => spec_parse_md_metadata(j.deep_view()) == Some(m.deep_view()),
            None => spec_parse_md_metadata(j.deep_view()) is None,
        },
{
    let id = j.get_str("id")?;
    let name = j.get_opt_str("name")?;
    let description = j.get_opt_str("description")?;
    let format_doc = match j.get("format") {
        Some(v) => v,
        None => {
            return None;
        },
    };
    let schema_string = j.get_str("schemaString")?;
    let partition_columns = j.get_str_arr("partitionColumns")?;
    let format = crate::parse::parse_format(format_doc)?;
    Some(
        MetadataDeltaMetadata { id, name, description, format, schema_string, partition_columns },
    )
}

/// The operation line: an object with exactly one key, `add` with an add
/// payload, or `remove` with an empty one.
pub open spec fn spec_parse_md_operation(j: JsonModel) -> Option<MetadataDeltaOperationV> {
    match crate::parse::spec_action_entry(j) {
        Some(e) => if e.0 == "add"@ {
            match spec_parse_add_shell(e.1) {
                Some(sh) => Some(MetadataDeltaOperationV::Add(sh)),
                None => None,
            }
        } else if e.0 == "remove"@ {
            if e.1 is Null {
                Some(MetadataDeltaOperationV::Remove)
            } else {
                None
            }
        } else {
            None
        },
        None => None,
    }
}

/// Parse the operation line.
pub fn parse_md_operation(j: &JsonValue) -> (r: Option<MetadataDeltaOperation>)
    ensures
        match r {
            Some(op) => spec_parse_md_operation(j.deep_view()) == Some(op.deep_view()),
            None => spec_parse_md_operation(j.deep_view()) is None,
        },
{
    broadcast use crate::json::lemma_json_model_entries;

    match j {
        JsonValue::Obj(entries) => {
            if entries.len() != 1 {
                proof {
                    crate::parse::lemma_json_variant(*j);
                    crate::json::lemma_json_model_entries(entries@);
                }
                return None;
            }
            let key = &entries[0].0;
            let payload = &entries[0].1;
            proof {
                crate::parse::lemma_json_variant(*j);
                crate::json::lemma_json_model_entries(entries@);
                assert(j.deep_view()->Obj_0[0] == (entries@[0].0@, crate::json::json_model(
                    entries@[0].1,
                )));
                reveal_strlit("add");
                reveal_strlit("remove");
            }
            let ghost e = crate::parse::spec_action_entry(j.deep_view())->0;
            proof {
                assert(e.0 == entries@[0].0@);
                assert(e.1 == payload.deep_view());
            }
            if crate::json::str_eq(key.as_str(), "add") {
                match parse_md_add(payload) {
                    Some(a) => Some(MetadataDeltaOperation::Add(a)),
                    None => None,
                }
            } else if crate::json::str_eq(key.as_str(), "remove") {
                match payload {
                    JsonValue::Null => Some(
                        MetadataDeltaOperation::Remove(MetadataDeltaOperationRemove),
                    ),
                    _ => {
                        proof {
                            crate::parse::lemma_json_variant(*payload);
                        }
                        None
                    },
                }
            } else {
                None
            }
        },
        _ => {
            proof {
                crate::parse::lemma_json_variant(*j);
            }
            None
        },
    }
}

/// Parse an add payload, its statistics text kept raw.
pub fn parse_md_add(j: &JsonValue) -> (r: Option<MetadataDeltaOperationAdd>)
    ensures
        match r {
            Some(a) => spec_parse_add_shell(j.deep_view()) == Some(a.deep_view()),
            None => spec_parse_add_shell(j.deep_view()) is None,
        },
{
    let path = j.get_str("path")?;
    let partition_values = j.get_str_map("partitionValues")?;
    let size = j.get_uint("size", u64::MAX)?;
    let modification_time = j.get_uint("modificationTime", u64::MAX)?;
    let data_change = j.get_bool("dataChange")?;
    let stats = j.get_str("stats")?;
    let tags = j.get_opt_str("tags")?;
    let base_row_id = j.get_opt_str("baseRowId")?;
    let default_row_commit_version = j.get_opt_str("defaultRowCommitVersion")?;
    let clustering_provider = j.get_opt_str("clusteringProvider")?;
    Some(
        MetadataDeltaOperationAdd {
            path,
            partition_values,
            size,
            modification_time,
            data_change,
            stats,
            tags,
            base_row_id,
            default_row_commit_version,
            clustering_provider,
        },
    )
}

/// The commit line's payload; the metrics must carry the write shape.
pub open spec fn spec_parse_md_commit(j: JsonModel) -> Option<MetadataDeltaCommitV> {
    match (
        crate::parse::spec_uint_field(j, "timestamp"@, u64::MAX as int),
        crate::parse::spec_str_field(j, "operation"@),
        crate::parse::spec_str_map_field(j, "operationParameters"@),
        crate::parse::spec_str_field(j, "engineInfo"@),
        crate::parse::spec_field(j, "operationMetrics"@),
        crate::parse::spec_str_field(j, "clientVersion"@),
    ) {
        (Some(ts), Some(op), Some(params), Some(ei), Some(mj), Some(cv)) => {
            match spec_parse_metrics_write(mj) {
                Some(m) => Some(
                    MetadataDeltaCommitV {
                        timestamp: ts,
                        operation: op,
                        operation_parameters: params,
                        engine_info: ei,
                        operation_metrics: m,
                        client_version: cv,
                    },
                ),
                None => None,
            }
        },
        _ => None,
    }
}

/// Parse the commit line's payload.
pub fn parse_md_commit(j: &JsonValue) -> (r: Option<MetadataDeltaCommit>)
    ensures
        match r {
            Some(c) => spec_parse_md_commit(j.deep_view()) == Some(c.deep_view()),
            None => spec_parse_md_commit(j.deep_view()) is None,
        },
{
    let timestamp = j.get_uint("timestamp", u64::MAX)?;
    let operation = j.get_str("operation")?;
    let operation_parameters = j.get_str_map("operationParameters")?;
    let engine_info = j.get_str("engineInfo")?;
    let metrics_doc = match j.get("operationMetrics") {
        Some(v) => v,
        None => {
            return None;
        },
    };
    let client_version = j.get_str("clientVersion")?;
    let t = metrics_doc.get_uint("execution_time_ms", u64::MAX)?;
    let af = metrics_doc.get_uint("num_added_files", 0xffff)?;
    let ar = metrics_doc.get_uint("num_added_rows", u64::MAX)?;
    let p = metrics_doc.get_uint("num_partitions", 0xffff)?;
    let rf = metrics_doc.get_uint("num_removed_files", 0xffff)?;
    let operation_metrics = MetricsWrite {
        execution_time_ms: t,
        num_added_files: af as u16,
        num_added_rows: ar,
        num_partitions: p as u16,
        num_removed_files: rf as u16,
    };
    Some(
        MetadataDeltaCommit {
            timestamp,
            operation,
            operation_parameters,
            engine_info,
            operation_metrics,
            client_version,
        },
    )
}

/// The protocol line: a document keyed `protocol` whose payload parses.
pub open spec fn spec_md_protocol_line(line: Seq<char>) -> Option<Protocol> {
    match crate::json::json_doc_of(line) {
        Some(d) => match d.lookup("protocol"@) {
            Some(pj) => spec_parse_protocol(pj),
            _ => None,
        },
        None => None,
    }
}

/// The metadata line: a document keyed `metaData` whose payload parses.
pub open spec fn spec_md_metadata_line(line: Seq<char>) -> Option<MetadataDeltaMetadataV> {
    match crate::json::json_doc_of(line) {
        Some(d) => match d.lookup("metaData"@) {
            Some(mj) => spec_parse_md_metadata(mj),
            _ => None,
        },
        None => None,
    }
}

/// The operation line: a single-keyed `add` or `remove` document.
pub open spec fn spec_md_operation_line(line: Seq<char>) -> Option<MetadataDeltaOperationV> {
    match crate::json::json_doc_of(line) {
        Some(d) => spec_parse_md_operation(d),
        None => None,
    }
}

/// The commit line: a document keyed `commitInfo` whose payload parses.
pub open spec fn spec_md_commit_line(line: Seq<char>) -> Option<MetadataDeltaCommitV> {
    match crate::json::json_doc_of(line) {
        Some(d) => match d.lookup("commitInfo"@) {
            Some(cj) => spec_parse_md_commit(cj),
            _ => None,
        },
        None => None,
    }
}

/// The whole opening commit file, out of its lines: the first four must
/// carry the protocol, the table metadata, one operation and the commit
/// record, in that order; a line that is missing, decodes to no
/// document or misses its shape is the failure, by its one-based
/// number.
pub open spec fn spec_parse_delta_metadata(lines: Seq<Seq<char>>) -> Result<MetadataDeltaV, int> {
    if lines.len() < 1 {
        Err(1)
    } else {
        match spec_md_protocol_line(lines[0]) {
            None => Err(1),
            Some(p) => if lines.len() < 2 {
                Err(2)
            } else {
                match spec_md_metadata_line(lines[1]) {
                    None => Err(2),
                    Some(m) => if lines.len() < 3 {
                        Err(3)
                    } else {
                        match spec_md_operation_line(lines[2]) {
                            None => Err(3),
                            Some(op) => if lines.len() < 4 {
                                Err(4)
                            } else {
                                match spec_md_commit_line(lines[3]) {
                                    None => Err(4),
                                    Some(c) => Ok(
                                        MetadataDeltaV {
                                            protocol: p,
                                            metadata: m,
                                            operation: op,
                                            commit: c,
                                        },
                                    ),
                                }
                            },
                        }
                    },
                }
            },
        }
    }
}

/// Read the opening commit file: exactly the four records its first
/// four lines carry, or the one-based number of the first line that is
/// missing, decodes to no document or misses its expected shape.
pub fn parse_delta_metadata(lines: &Vec<String>) -> (r: Result<MetadataDelta, LogParseError>)
    ensures
        match r {
            Ok(m) => spec_parse_delta_metadata(lines.deep_view()) == Ok::<MetadataDeltaV, int>(
                m.deep_view(),
            ),
            Err(e) => spec_parse_delta_metadata(lines.deep_view()) == Err::<MetadataDeltaV, int>(
                e.line as int,
            ) && 1 <= e.line <= 4,
        },
{
    broadcast use crate::state::lemma_deep_of, crate::state::lemma_vec_deep_view;

    let ghost ld = lines.deep_view();
    if lines.len() < 1 {
        return Err(LogParseError { line: 1 });
    }
    proof {
        assert(crate::state::deep_of(lines@)[0] == lines@[0].deep_view());
    }
    let protocol = match crate::json::parse_json(lines[0].as_str()) {
        Some(d0) => match d0.get("protocol") {
            Some(pj) => match crate::parse::parse_protocol(pj) {
                Some(p) => p,
                None => {
                    return Err(LogParseError { line: 1 });
                },
            },
            None => {
                return Err(LogParseError { line: 1 });
            },
        },
        None => {
            return Err(LogParseError { line: 1 });
        },
    };
    if lines.len() < 2 {
        return Err(LogParseError { line: 2 });
    }
    proof {
        assert(crate::state::deep_of(lines@)[1] == lines@[1].deep_view());
    }
    let metadata = match crate::json::parse_json(lines[1].as_str()) {
        Some(d1) => match d1.get("metaData") {
            Some(mj) => match parse_md_metadata(mj) {
                Some(m) => m,
                None => {
                    return Err(LogParseError { line: 2 });
                },
            },
            None => {
                return Err(LogParseError { line: 2 });
            },
        },
        None => {
            return Err(LogParseError { line: 2 });
        },
    };
    if lines.len() < 3 {
        return Err(LogParseError { line: 3 });
    }
    proof {
        assert(crate::state::deep_of(lines@)[2] == lines@[2].deep_view());
    }
    let operation = match crate::json::parse_json(lines[2].as_str()) {
        Some(d2) => match parse_md_operation(&d2) {
            Some(op) => op,
            None => {
                return Err(LogParseError { line: 3 });
            },
        },
        None => {
            return Err(LogParseError { line: 3 });
        },
    };
    if lines.len() < 4 {
        return Err(LogParseError { line: 4 });
    }
    proof {
        assert(crate::state::deep_of(lines@)[3] == lines@[3].deep_view());
    }
    let commit = match crate::json::parse_json(lines[3].as_str()) {
        Some(d3) => match d3.get("commitInfo") {
            Some(cj) => match parse_md_commit(cj) {
                Some(c) => c,
                None => {
                    return Err(LogParseError { line: 4 });
                },
            },
            None => {
                return Err(LogParseError { line: 4 });
            },
        },
        None => {
            return Err(LogParseError { line: 4 });
        },
    };
    Ok(MetadataDelta { protocol, metadata, operation, commit })
}

} // verus!
