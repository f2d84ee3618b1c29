use lakeview::action::{DeltaAction, NullCount, OperationMetrics, StatValue};
use lakeview::metadata::parse_delta_metadata;
use lakeview::parse::parse_log_lines;

fn lines(raw: Vec<&str>) -> Vec<String> {
    raw.into_iter().map(String::from).collect()
}

const ADD_LINE: &str = r#"{"add":{"path":"part-0001.parquet","partitionValues":{"year":"2024"},"size":2048,"modificationTime":1700000000000,"dataChange":true,"stats":"{\"numRecords\":42,\"minValues\":{\"id\":1,\"name\":\"a\"},\"maxValues\":{\"id\":9,\"name\":\"z\"},\"nullCount\":{\"id\":0,\"nested\":{\"x\":2}}}"}}"#;

const REMOVE_LINE: &str = r#"{"remove":{"path":"part-0001.parquet","dataChange":true,"deletionTimestamp":1700000001000,"extendedFileMetadata":true,"partitionValues":{},"size":2048}}"#;

const PROTOCOL_LINE: &str = r#"{"protocol":{"minReaderVersion":1,"minWriterVersion":2}}"#;

const METADATA_LINE: &str = r#"{"metaData":{"id":"11111111-2222-3333-4444-555555555555","format":{"provider":"parquet","options":{}},"schemaString":"{\"type\":\"struct\",\"fields\":[{\"name\":\"id\",\"type\":\"long\",\"nullable\":true,\"metadata\":{}}]}","partitionColumns":["year"]}}"#;

const COMMIT_WRITE_LINE: &str = r#"{"commitInfo":{"timestamp":1700000000000,"operation":"WRITE","operationParameters":{"mode":"Append"},"engineInfo":"engine","operationMetrics":{"execution_time_ms":9,"num_added_files":1,"num_added_rows":42,"num_partitions":1,"num_removed_files":0},"readVersion":0,"clientVersion":"client-1"}}"#;

const COMMIT_OPTIMIZE_LINE: &str = r#"{"commitInfo":{"timestamp":1700000002000,"operation":"OPTIMIZE","operationParameters":{},"engineInfo":"engine","operationMetrics":{"filesAdded":"1","filesRemoved":"4","numBatches":1,"numFilesAdded":1,"numFilesRemoved":4,"partitionsOptimized":1,"preserveInsertionOrder":true,"totalConsideredFiles":5,"totalFilesSkipped":0},"clientVersion":"client-1"}}"#;

const COMMIT_VACUUM_START_LINE: &str = r#"{"commitInfo":{"timestamp":1700000003000,"operation":"VACUUM START","operationParameters":{},"engineInfo":"engine","operationMetrics":{"numFilesToDelete":4,"sizeOfDataToDelete":8192},"clientVersion":"client-1"}}"#;

const COMMIT_VACUUM_END_LINE: &str = r#"{"commitInfo":{"timestamp":1700000004000,"operation":"VACUUM END","operationParameters":{},"engineInfo":"engine","operationMetrics":{"numDeletedFiles":4,"numVacuumedDirectories":1},"clientVersion":"client-1"}}"#;

#[test]
fn test_parse_delta_log_add() {
    let log = parse_log_lines(
        String::from("00000000000000000000.json"),
        &lines(vec![PROTOCOL_LINE, METADATA_LINE, ADD_LINE, COMMIT_WRITE_LINE]),
    )
    .expect("the opening commit parses");
    assert!(log.protocol.is_some());
    assert!(log.metadata.is_some());
    assert_eq!(log.adds.len(), 1);
    assert_eq!(log.removes.len(), 0);
    let add = &log.adds[0];
    assert_eq!(add.path, "part-0001.parquet");
    assert_eq!(add.size, 2048);
    assert_eq!(add.stats.num_records, 42);
    assert_eq!(add.stats.min_values.len(), 2);
    assert!(matches!(add.stats.min_values[0].1, StatValue::Integer(1)));
    assert!(matches!(add.stats.null_count[0].1, NullCount::Count(0)));
    assert!(matches!(add.stats.null_count[1].1, NullCount::Nested(_)));
    let commit = log.commit_info.expect("commit info present");
    assert_eq!(commit.operation, "WRITE");
    assert!(matches!(commit.operation_metrics, OperationMetrics::Add(_)));
    let schema = &log.metadata.as_ref().unwrap().schema;
    assert_eq!(schema.fields.len(), 1);
    assert_eq!(schema.fields[0].name, "id");
}

#[test]
fn test_parse_delta_log_remove() {
    let log = parse_log_lines(
        String::from("00000000000000000052.json"),
        &lines(vec![REMOVE_LINE]),
    )
    .expect("a remove line parses");
    assert_eq!(log.removes.len(), 1);
    assert_eq!(log.removes[0].path, "part-0001.parquet");
    assert_eq!(log.removes[0].deletion_timestamp, 1700000001000);
}

#[test]
fn test_parse_delta_log_optimize() {
    let log = parse_log_lines(
        String::from("00000000000000000063.json"),
        &lines(vec![COMMIT_OPTIMIZE_LINE]),
    )
    .expect("an optimize commit parses");
    let commit = log.commit_info.expect("commit info present");
    match commit.operation_metrics {
        OperationMetrics::Optimize(o) => {
            assert_eq!(o.num_files_added, 1);
            assert_eq!(o.num_files_removed, 4);
            assert_eq!(o.files_removed, "4");
        },
        other => panic!("unexpected metrics shape: {:?}", other),
    }
}

#[test]
fn test_parse_delta_log_vacuum_start() {
    let log = parse_log_lines(
        String::from("00000000000000000064.json"),
        &lines(vec![COMMIT_VACUUM_START_LINE]),
    )
    .expect("a vacuum-start commit parses");
    let commit = log.commit_info.expect("commit info present");
    match commit.operation_metrics {
        OperationMetrics::VacuumStart(v) => {
            assert_eq!(v.num_files_to_delete, 4);
            assert_eq!(v.size_of_data_to_delete, 8192);
        },
        other => panic!("unexpected metrics shape: {:?}", other),
    }
}

#[test]
fn test_parse_delta_log_vacuum_end() {
    let log = parse_log_lines(
        String::from("00000000000000000065.json"),
        &lines(vec![COMMIT_VACUUM_END_LINE]),
    )
    .expect("a vacuum-end commit parses");
    let commit = log.commit_info.expect("commit info present");
    match commit.operation_metrics {
        OperationMetrics::VacuumEnd(v) => {
            assert_eq!(v.num_deleted_files, 4);
            assert_eq!(v.num_vacuumed_directories, 1);
        },
        other => panic!("unexpected metrics shape: {:?}", other),
    }
}

#[test]
fn test_parse_delta_log_bad_line_number() {
    let err = parse_log_lines(
        String::from("00000000000000000001.json"),
        &lines(vec![PROTOCOL_LINE, "this is not json", ADD_LINE]),
    )
    .expect_err("a bad line fails the file");
    assert_eq!(err.line, 2);
}

#[test]
fn test_parse_delta_log_bad_shape() {
    let err = parse_log_lines(
        String::from("00000000000000000001.json"),
        &lines(vec![r#"{"somethingElse":{}}"#]),
    )
    .expect_err("an unknown action shape fails the file");
    assert_eq!(err.line, 1);
}

#[test]
fn test_parse_delta_log_bad_nested_stats() {
    let bad_add = r#"{"add":{"path":"p","partitionValues":{},"size":1,"modificationTime":1,"dataChange":true,"stats":"not json"}}"#;
    let err = parse_log_lines(String::from("f.json"), &lines(vec![ADD_LINE, bad_add]))
        .expect_err("a bad embedded stats string fails the file");
    assert_eq!(err.line, 2);
}

#[test]
fn test_parse_delta_metadata() {
    let operation_line = r#"{"add":{"path":"part-0001.parquet","partitionValues":{},"size":2048,"modificationTime":1700000000000,"dataChange":true,"stats":"{\"numRecords\":42}"}}"#;
    let commit_line = r#"{"commitInfo":{"timestamp":1700000000000,"operation":"WRITE","operationParameters":{},"engineInfo":"engine","operationMetrics":{"execution_time_ms":9,"num_added_files":1,"num_added_rows":42,"num_partitions":1,"num_removed_files":0},"clientVersion":"client-1"}}"#;
    let result = parse_delta_metadata(
        &lines(vec![PROTOCOL_LINE, METADATA_LINE, operation_line, commit_line]),
    );
    match result {
        Ok(metadata) => {
            assert_eq!(metadata.protocol.min_reader_version, 1);
            assert_eq!(metadata.protocol.min_writer_version, 2);
            assert_eq!(metadata.metadata.partition_columns, vec![String::from("year")]);
            assert_eq!(metadata.commit.operation_metrics.num_added_rows, 42);
            match metadata.operation {
                lakeview::metadata::MetadataDeltaOperation::Add(a) => {
                    assert_eq!(a.path, "part-0001.parquet");
                    assert_eq!(a.stats, r#"{"numRecords":42}"#);
                },
                _ => panic!("expected an add operation"),
            }
        },
        Err(e) => panic!("Failed to parse: line {}", e.line),
    }
}

#[test]
fn test_parse_delta_metadata_remove_operation() {
    let operation_line = r#"{"remove":null}"#;
    let commit_line = r#"{"commitInfo":{"timestamp":1,"operation":"DELETE","operationParameters":{},"engineInfo":"e","operationMetrics":{"execution_time_ms":1,"num_added_files":0,"num_added_rows":0,"num_partitions":0,"num_removed_files":1},"clientVersion":"c"}}"#;
    let metadata = parse_delta_metadata(
        &lines(vec![PROTOCOL_LINE, METADATA_LINE, operation_line, commit_line]),
    )
    .expect("a remove operation parses");
    assert!(matches!(
        metadata.operation,
        lakeview::metadata::MetadataDeltaOperation::Remove(_)
    ));
}

#[test]
fn test_parse_delta_metadata_short_file() {
    let err = parse_delta_metadata(&lines(vec![PROTOCOL_LINE, METADATA_LINE]))
        .expect_err("a two-line file fails on the missing third line");
    assert_eq!(err.line, 3);
    let err = parse_delta_metadata(&lines(vec![]))
        .expect_err("an empty file fails on the missing first line");
    assert_eq!(err.line, 1);
}

#[test]
fn test_parse_delta_metadata_bad_line() {
    let err = parse_delta_metadata(
        &lines(vec![PROTOCOL_LINE, r#"{"wrongKey":{}}"#, r#"{"remove":null}"#, "{}"]),
    )
    .expect_err("a wrong metadata line fails");
    assert_eq!(err.line, 2);
}
