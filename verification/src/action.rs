//! The action model: a typed form of every record shape that can occur on
//! one line of a transaction log, together with the ghost models that the
//! parsing and merge contracts speak about.
//!
//! String-keyed maps of the wire format are kept as entry vectors in wire
//! order. Ghost models mirror each type, with strings as character
//! sequences; recursive ghost types recurse through sequences, since a
//! ghost datatype cannot recurse through an owned indirection.

use vstd::prelude::*;

verus! {

/// Reader/writer protocol versions of the table.
#[derive(Debug, Clone, Copy, PartialEq, Eq, Structural)]
pub struct Protocol {
    pub min_reader_version: u8,
    pub min_writer_version: u8,
}

/// Storage format of the table's data files.
#[derive(Debug)]
pub struct StorageFormat {
    pub provider: String,
    pub options: Vec<(String, String)>,
}

/// Ghost model of [`StorageFormat`].
pub struct StorageFormatV {
    pub provider: Seq<char>,
    pub options: Seq<(Seq<char>, Seq<char>)>,
}

impl DeepView for StorageFormat {
    type V = StorageFormatV;

    open spec fn deep_view(&self) -> StorageFormatV {
        StorageFormatV { provider: self.provider@, options: self.options.deep_view() }
    }
}

/// One per-column statistic value: scalars, or nested values for struct
/// columns. Fractional numbers are carried as their numeral text; the
/// engine never computes with them.
#[derive(Debug)]
pub enum StatValue {
    Null,
    Bool(bool),
    Integer(i64),
    Float(String),
    Text(String),
    Struct(Vec<(String, StatValue)>),
    Array(Vec<StatValue>),
}

/// Ghost model of [`StatValue`].
pub enum StatValueV {
    Null,
    Bool(bool),
    Integer(int),
    Float(Seq<char>),
    Text(Seq<char>),
    Struct(Seq<(Seq<char>, StatValueV)>),
    Array(Seq<StatValueV>),
}

pub open spec fn stat_value_model(s: StatValue) -> StatValueV
    decreases s, 2int,
{
    match s {
        StatValue::Null => StatValueV::Null,
        StatValue::Bool(b) => StatValueV::Bool(b),
        StatValue::Integer(i) => StatValueV::Integer(i as int),
        StatValue::Float(t) => StatValueV::Float(t@),
        StatValue::Text(t) => StatValueV::Text(t@),
        StatValue::Struct(v) => StatValueV::Struct(stat_value_entries_model(v@)),
        StatValue::Array(v) => StatValueV::Array(stat_value_seq_model(v@)),
    }
}

pub open spec fn stat_value_seq_model(s: Seq<StatValue>) -> Seq<StatValueV>
    decreases s, 1int,
{
    if s.len() == 0 {
        Seq::empty()
    } else {
        stat_value_seq_model(s.drop_last()).push(stat_value_model(s.last()))
    }
}

pub open spec fn stat_value_entries_model(s: Seq<(String, StatValue)>) -> Seq<
    (Seq<char>, StatValueV),
>
    decreases s, 1int,
{
    if s.len() == 0 {
        Seq::empty()
    } else {
        stat_value_entries_model(s.drop_last()).push((s.last().0@, stat_value_model(s.last().1)))
    }
}

/// The two model helpers are plain element-wise maps.
pub broadcast proof fn lemma_stat_value_seq_model(s: Seq<StatValue>)
    ensures
        (#[trigger] stat_value_seq_model(s)).len() == s.len(),
        forall|i: int| 0 <= i < s.len() ==> stat_value_seq_model(s)[i] == stat_value_model(s[i]),
    decreases s.len(),
{
    if s.len() > 0 {
        lemma_stat_value_seq_model(s.drop_last());
    }
}

pub broadcast proof fn lemma_stat_value_entries_model(s: Seq<(String, StatValue)>)
    ensures
        (#[trigger] stat_value_entries_model(s)).len() == s.len(),
        forall|i: int| 0 <= i < s.len()
            ==> stat_value_entries_model(s)[i] == (s[i].0@, stat_value_model(s[i].1)),
    decreases s.len(),
{
    if s.len() > 0 {
        lemma_stat_value_entries_model(s.drop_last());
    }
}

impl DeepView for StatValue {
    type V = StatValueV;

    open spec fn deep_view(&self) -> StatValueV {
        stat_value_model(*self)
    }
}

/// A per-column null count: a number, or nested counts for struct columns.
#[derive(Debug)]
pub enum NullCount {
    Count(u64),
    Nested(Vec<(String, NullCount)>),
}

/// Ghost model of [`NullCount`].
pub enum NullCountV {
    Count(u64),
    Nested(Seq<(Seq<char>, NullCountV)>),
}

pub open spec fn null_count_model(n: NullCount) -> NullCountV
    decreases n, 2int,
{
    match n {
        NullCount::Count(c) => NullCountV::Count(c),
        NullCount::Nested(v) => NullCountV::Nested(null_count_entries_model(v@)),
    }
}

pub open spec fn null_count_entries_model(s: Seq<(String, NullCount)>) -> Seq<
    (Seq<char>, NullCountV),
>
    decreases s, 1int,
{
    if s.len() == 0 {
        Seq::empty()
    } else {
        null_count_entries_model(s.drop_last()).push((s.last().0@, null_count_model(s.last().1)))
    }
}

pub broadcast proof fn lemma_null_count_entries_model(s: Seq<(String, NullCount)>)
    ensures
        (#[trigger] null_count_entries_model(s)).len() == s.len(),
        forall|i: int| 0 <= i < s.len()
            ==> null_count_entries_model(s)[i] == (s[i].0@, null_count_model(s[i].1)),
    decreases s.len(),
{
    if s.len() > 0 {
        lemma_null_count_entries_model(s.drop_last());
    }
}

impl DeepView for NullCount {
    type V = NullCountV;

    open spec fn deep_view(&self) -> NullCountV {
        null_count_model(*self)
    }
}

/// Statistics carried by one data file's add record.
#[derive(Debug)]
pub struct FileStats {
    pub num_records: u64,
    pub min_values: Vec<(String, StatValue)>,
    pub max_values: Vec<(String, StatValue)>,
    pub null_count: Vec<(String, NullCount)>,
}

/// Ghost model of [`FileStats`].
pub struct FileStatsV {
    pub num_records: u64,
    pub min_values: Seq<(Seq<char>, StatValueV)>,
    pub max_values: Seq<(Seq<char>, StatValueV)>,
    pub null_count: Seq<(Seq<char>, NullCountV)>,
}

impl DeepView for FileStats {
    type V = FileStatsV;

    open spec fn deep_view(&self) -> FileStatsV {
        FileStatsV {
            num_records: self.num_records,
            min_values: stat_value_entries_model(self.min_values@),
            max_values: stat_value_entries_model(self.max_values@),
            null_count: null_count_entries_model(self.null_count@),
        }
    }
}

impl FileStats {
    /// Statistics that carry a record count and nothing else, as derived
    /// from a checkpoint row.
    pub fn records_only(num_records: u64) -> (r: FileStats)
        ensures
            r.deep_view() == (FileStatsV {
                num_records,
                min_values: Seq::empty(),
                max_values: Seq::empty(),
                null_count: Seq::empty(),
            }),
    {
        FileStats {
            num_records,
            min_values: Vec::new(),
            max_values: Vec::new(),
            null_count: Vec::new(),
        }
    }
}

/// A data file added to the table.
#[derive(Debug)]
pub struct FileAdd {
    pub path: String,
    pub partition_values: Vec<(String, String)>,
    pub size: u64,
    pub modification_time: u64,
    pub data_change: bool,
    pub stats: FileStats,
    pub tags: Option<String>,
    pub base_row_id: Option<String>,
    pub default_row_commit_version: Option<String>,
    pub clustering_provider: Option<String>,
}

/// Ghost model of [`FileAdd`].
pub struct FileAddV {
    pub path: Seq<char>,
    pub partition_values: Seq<(Seq<char>, Seq<char>)>,
    pub size: u64,
    pub modification_time: u64,
    pub data_change: bool,
    pub stats: FileStatsV,
    pub tags: Option<Seq<char>>,
    pub base_row_id: Option<Seq<char>>,
    pub default_row_commit_version: Option<Seq<char>>,
    pub clustering_provider: Option<Seq<char>>,
}

impl DeepView for FileAdd {
    type V = FileAddV;

    open spec fn deep_view(&self) -> FileAddV {
        FileAddV {
            path: self.path@,
            partition_values: self.partition_values.deep_view(),
            size: self.size,
            modification_time: self.modification_time,
            data_change: self.data_change,
            stats: self.stats.deep_view(),
            tags: self.tags.deep_view(),
            base_row_id: self.base_row_id.deep_view(),
            default_row_commit_version: self.default_row_commit_version.deep_view(),
            clustering_provider: self.clustering_provider.deep_view(),
        }
    }
}

/// A data file removed from the table.
#[derive(Debug)]
pub struct FileRemove {
    pub path: String,
    pub data_change: bool,
    pub deletion_timestamp: u64,
    pub extended_file_metadata: Option<bool>,
    pub partition_values: Vec<(String, String)>,
    pub size: u64,
}

/// Ghost model of [`FileRemove`].
pub struct FileRemoveV {
    pub path: Seq<char>,
    pub data_change: bool,
    pub deletion_timestamp: u64,
    pub extended_file_metadata: Option<bool>,
    pub partition_values: Seq<(Seq<char>, Seq<char>)>,
    pub size: u64,
}

impl DeepView for FileRemove {
    type V = FileRemoveV;

    open spec fn deep_view(&self) -> FileRemoveV {
        FileRemoveV {
            path: self.path@,
            data_change: self.data_change,
            deletion_timestamp: self.deletion_timestamp,
            extended_file_metadata: self.extended_file_metadata,
            partition_values: self.partition_values.deep_view(),
            size: self.size,
        }
    }
}

/// Counters reported by a write operation.
#[derive(Debug, Clone, Copy, PartialEq, Eq, Structural)]
pub struct MetricsWrite {
    pub execution_time_ms: u64,
    pub num_added_files: u16,
    pub num_added_rows: u64,
    pub num_partitions: u16,
    pub num_removed_files: u16,
}

/// Counters reported by a delete operation.
#[derive(Debug, Clone, Copy, PartialEq, Eq, Structural)]
pub struct MetricsDelete {
    pub execution_time_ms: u64,
    pub num_added_files: u16,
    pub num_copied_rows: u64,
    pub num_deleted_rows: u64,
    pub num_removed_files: u16,
    pub rewrite_time_ms: u32,
    pub scan_time_ms: u32,
}

/// Counters reported by an optimize operation.
#[derive(Debug)]
pub struct MetricsOptimize {
    pub files_added: String,
    pub files_removed: String,
    pub num_batches: u16,
    pub num_files_added: u16,
    pub num_files_removed: u16,
    pub partitions_optimized: u16,
    pub preserve_insertion_order: bool,
    pub total_considered_files: u16,
    pub total_files_skipped: u16,
}

/// Ghost model of [`MetricsOptimize`].
pub struct MetricsOptimizeV {
    pub files_added: Seq<char>,
    pub files_removed: Seq<char>,
    pub num_batches: u16,
    pub num_files_added: u16,
    pub num_files_removed: u16,
    pub partitions_optimized: u16,
    pub preserve_insertion_order: bool,
    pub total_considered_files: u16,
    pub total_files_skipped: u16,
}

impl DeepView for MetricsOptimize {
    type V = MetricsOptimizeV;

    open spec fn deep_view(&self) -> MetricsOptimizeV {
        MetricsOptimizeV {
            files_added: self.files_added@,
            files_removed: self.files_removed@,
            num_batches: self.num_batches,
            num_files_added: self.num_files_added,
            num_files_removed: self.num_files_removed,
            partitions_optimized: self.partitions_optimized,
            preserve_insertion_order: self.preserve_insertion_order,
            total_considered_files: self.total_considered_files,
            total_files_skipped: self.total_files_skipped,
        }
    }
}

/// Counters reported at the start of a vacuum.
#[derive(Debug, Clone, Copy, PartialEq, Eq, Structural)]
pub struct MetricsVacuumStart {
    pub num_files_to_delete: u16,
    pub size_of_data_to_delete: u64,
}

/// Counters reported at the end of a vacuum.
#[derive(Debug, Clone, Copy, PartialEq, Eq, Structural)]
pub struct MetricsVacuumEnd {
    pub num_deleted_files: u16,
    pub num_vacuumed_directories: u64,
}

/// Per-commit counters. The wire format carries no discriminant between
/// the five shapes; the parser settles the shape by field matching, in
/// this declaration order.
#[derive(Debug)]
pub enum OperationMetrics {
    Add(MetricsWrite),
    Remove(MetricsDelete),
    Optimize(MetricsOptimize),
    VacuumStart(MetricsVacuumStart),
    VacuumEnd(MetricsVacuumEnd),
}

/// Ghost model of [`OperationMetrics`].
pub enum OperationMetricsV {
    Add(MetricsWrite),
    Remove(MetricsDelete),
    Optimize(MetricsOptimizeV),
    VacuumStart(MetricsVacuumStart),
    VacuumEnd(MetricsVacuumEnd),
}

impl DeepView for OperationMetrics {
    type V = OperationMetricsV;

    open spec fn deep_view(&self) -> OperationMetricsV {
        match *self {
            OperationMetrics::Add(w) => OperationMetricsV::Add(w),
            OperationMetrics::Remove(d) => OperationMetricsV::Remove(d),
            OperationMetrics::Optimize(ref o) => OperationMetricsV::Optimize(o.deep_view()),
            OperationMetrics::VacuumStart(v) => OperationMetricsV::VacuumStart(v),
            OperationMetrics::VacuumEnd(v) => OperationMetricsV::VacuumEnd(v),
        }
    }
}

/// Commit metadata carried by one log file.
#[derive(Debug)]
pub struct CommitInfo {
    pub timestamp: u64,
    pub operation: String,
    pub operation_parameters: Vec<(String, String)>,
    pub engine_info: String,
    pub operation_metrics: OperationMetrics,
    pub read_version: Option<u32>,
    pub client_version: String,
}

/// Ghost model of [`CommitInfo`].
pub struct CommitInfoV {
    pub timestamp: u64,
    pub operation: Seq<char>,
    pub operation_parameters: Seq<(Seq<char>, Seq<char>)>,
    pub engine_info: Seq<char>,
    pub operation_metrics: OperationMetricsV,
    pub read_version: Option<u32>,
    pub client_version: Seq<char>,
}

impl DeepView for CommitInfo {
    type V = CommitInfoV;

    open spec fn deep_view(&self) -> CommitInfoV {
        CommitInfoV {
            timestamp: self.timestamp,
            operation: self.operation@,
            operation_parameters: self.operation_parameters.deep_view(),
            engine_info: self.engine_info@,
            operation_metrics: self.operation_metrics.deep_view(),
            read_version: self.read_version,
            client_version: self.client_version@,
        }
    }
}

/// The type of one schema field: primitive, struct, array or map. Array
/// and map payloads recurse through an owned indirection.
#[derive(Debug)]
pub enum FieldType {
    Primitive(String),
    Struct(StructType),
    Array(ArrayType),
    Mapping(MapType),
}

/// A struct schema node: ordered named fields.
#[derive(Debug)]
pub struct StructType {
    pub kind_name: String,
    pub fields: Vec<Field>,
}

/// An array schema node.
#[derive(Debug)]
pub struct ArrayType {
    pub kind_name: String,
    pub element_type: Box<FieldType>,
    pub contains_null: bool,
}

/// A map schema node.
#[derive(Debug)]
pub struct MapType {
    pub kind_name: String,
    pub key_type: Box<FieldType>,
    pub value_type: Box<FieldType>,
    pub value_contains_null: bool,
}

/// One named field of a struct schema node.
#[derive(Debug)]
pub struct Field {
    pub name: String,
    pub field_type: FieldType,
    pub nullable: bool,
    pub metadata: Vec<(String, String)>,
}

/// Ghost model of [`FieldType`]. Nested node models stand in one-element
/// sequences, since a ghost datatype recurses through sequences.
pub enum FieldTypeV {
    Primitive(Seq<char>),
    Struct(StructTypeV),
    Array(ArrayTypeV),
    Mapping(MapTypeV),
}

/// Ghost model of [`StructType`].
pub struct StructTypeV {
    pub kind_name: Seq<char>,
    pub fields: Seq<FieldV>,
}

/// Ghost model of [`ArrayType`]; `element_type` always has length one.
pub struct ArrayTypeV {
    pub kind_name: Seq<char>,
    pub element_type: Seq<FieldTypeV>,
    pub contains_null: bool,
}

/// Ghost model of [`MapType`]; `key_type` and `value_type` always have
/// length one.
pub struct MapTypeV {
    pub kind_name: Seq<char>,
    pub key_type: Seq<FieldTypeV>,
    pub value_type: Seq<FieldTypeV>,
    pub value_contains_null: bool,
}

/// Ghost model of [`Field`].
pub struct FieldV {
    pub name: Seq<char>,
    pub field_type: FieldTypeV,
    pub nullable: bool,
    pub metadata: Seq<(Seq<char>, Seq<char>)>,
}

pub open spec fn field_type_model(t: FieldType) -> FieldTypeV
    decreases t, 2int,
{
    match t {
        FieldType::Primitive(s) => FieldTypeV::Primitive(s@),
        FieldType::Struct(st) => FieldTypeV::Struct(
            StructTypeV { kind_name: st.kind_name@, fields: field_seq_model(st.fields@) },
        ),
        FieldType::Array(at) => FieldTypeV::Array(
            ArrayTypeV {
                kind_name: at.kind_name@,
                element_type: Seq::empty().push(field_type_model(*at.element_type)),
                contains_null: at.contains_null,
            },
        ),
        FieldType::Mapping(mt) => FieldTypeV::Mapping(
            MapTypeV {
                kind_name: mt.kind_name@,
                key_type: Seq::empty().push(field_type_model(*mt.key_type)),
                value_type: Seq::empty().push(field_type_model(*mt.value_type)),
                value_contains_null: mt.value_contains_null,
            },
        ),
    }
}

pub open spec fn field_model(f: Field) -> FieldV
    decreases f, 3int,
{
    FieldV {
        name: f.name@,
        field_type: field_type_model(f.field_type),
        nullable: f.nullable,
        metadata: f.metadata.deep_view(),
    }
}

pub open spec fn field_seq_model(s: Seq<Field>) -> Seq<FieldV>
    decreases s, 1int,
{
    if s.len() == 0 {
        Seq::empty()
    } else {
        field_seq_model(s.drop_last()).push(field_model(s.last()))
    }
}

pub broadcast proof fn lemma_field_seq_model(s: Seq<Field>)
    ensures
        (#[trigger] field_seq_model(s)).len() == s.len(),
        forall|i: int| 0 <= i < s.len() ==> field_seq_model(s)[i] == field_model(s[i]),
    decreases s.len(),
{
    if s.len() > 0 {
        lemma_field_seq_model(s.drop_last());
    }
}

impl DeepView for FieldType {
    type V = FieldTypeV;

    open spec fn deep_view(&self) -> FieldTypeV {
        field_type_model(*self)
    }
}

impl DeepView for Field {
    type V = FieldV;

    open spec fn deep_view(&self) -> FieldV {
        field_model(*self)
    }
}

/// The table schema: a struct node at the root.
#[derive(Debug)]
pub struct Schema {
    pub kind_name: String,
    pub fields: Vec<Field>,
}

/// Ghost model of [`Schema`].
pub struct SchemaV {
    pub kind_name: Seq<char>,
    pub fields: Seq<FieldV>,
}

impl DeepView for Schema {
    type V = SchemaV;

    open spec fn deep_view(&self) -> SchemaV {
        SchemaV { kind_name: self.kind_name@, fields: field_seq_model(self.fields@) }
    }
}

/// Table-level metadata carried by a log file.
#[derive(Debug)]
pub struct Metadata {
    pub id: String,
    pub name: Option<String>,
    pub description: Option<String>,
    pub format: StorageFormat,
    pub schema: Schema,
    pub partition_columns: Vec<String>,
}

/// Ghost model of [`Metadata`].
pub struct MetadataV {
    pub id: Seq<char>,
    pub name: Option<Seq<char>>,
    pub description: Option<Seq<char>>,
    pub format: StorageFormatV,
    pub schema: SchemaV,
    pub partition_columns: Seq<Seq<char>>,
}

impl DeepView for Metadata {
    type V = MetadataV;

    open spec fn deep_view(&self) -> MetadataV {
        MetadataV {
            id: self.id@,
            name: self.name.deep_view(),
            description: self.description.deep_view(),
            format: self.format.deep_view(),
            schema: self.schema.deep_view(),
            partition_columns: self.partition_columns.deep_view(),
        }
    }
}

/// One action parsed from one log line; the discriminant is the single
/// key present in that line's JSON object.
#[derive(Debug)]
pub enum DeltaAction {
    Protocol(Protocol),
    Metadata(Metadata),
    Add(FileAdd),
    Remove(FileRemove),
    CommitInfo(CommitInfo),
}

/// Ghost model of [`DeltaAction`].
pub enum DeltaActionV {
    Protocol(Protocol),
    Metadata(MetadataV),
    Add(FileAddV),
    Remove(FileRemoveV),
    CommitInfo(CommitInfoV),
}

impl DeepView for DeltaAction {
    type V = DeltaActionV;

    open spec fn deep_view(&self) -> DeltaActionV {
        match *self {
            DeltaAction::Protocol(p) => DeltaActionV::Protocol(p),
            DeltaAction::Metadata(ref m) => DeltaActionV::Metadata(m.deep_view()),
            DeltaAction::Add(ref a) => DeltaActionV::Add(a.deep_view()),
            DeltaAction::Remove(ref r) => DeltaActionV::Remove(r.deep_view()),
            DeltaAction::CommitInfo(ref c) => DeltaActionV::CommitInfo(c.deep_view()),
        }
    }
}

/// Everything one log file contributes: the singleton fields keep the
/// last writer, the lists keep file order.
#[derive(Debug)]
pub struct TransactionLog {
    pub path: String,
    pub protocol: Option<Protocol>,
    pub metadata: Option<Metadata>,
    pub adds: Vec<FileAdd>,
    pub removes: Vec<FileRemove>,
    pub commit_info: Option<CommitInfo>,
}

/// Ghost model of [`TransactionLog`].
pub struct TransactionLogV {
    pub path: Seq<char>,
    pub protocol: Option<Protocol>,
    pub metadata: Option<MetadataV>,
    pub adds: Seq<FileAddV>,
    pub removes: Seq<FileRemoveV>,
    pub commit_info: Option<CommitInfoV>,
}

impl DeepView for TransactionLog {
    type V = TransactionLogV;

    open spec fn deep_view(&self) -> TransactionLogV {
        TransactionLogV {
            path: self.path@,
            protocol: self.protocol,
            metadata: self.metadata.deep_view(),
            adds: self.adds.deep_view(),
            removes: self.removes.deep_view(),
            commit_info: self.commit_info.deep_view(),
        }
    }
}

} // verus!
