use lakeview::engine::{get_table_history_paginated, summarize_tables_paginated};
use lakeview::fsmodel::{FileData, FsDir, FsFile};

fn text_file(name: &str, lines: Vec<&str>) -> FsFile {
    FsFile {
        name: String::from(name),
        data: FileData::Lines(lines.into_iter().map(String::from).collect()),
    }
}

fn log_dir(files: Vec<FsFile>) -> FsDir {
    FsDir { name: String::from("_delta_log"), files, dirs: Vec::new() }
}

fn commit_write(rows: u64, files_added: u16) -> String {
    format!(
        r#"{{"commitInfo":{{"timestamp":1700000000000,"operation":"WRITE","operationParameters":{{}},"engineInfo":"engine","operationMetrics":{{"execution_time_ms":5,"num_added_files":{},"num_added_rows":{},"num_partitions":1,"num_removed_files":0}},"clientVersion":"client-1"}}}}"#,
        files_added, rows
    )
}

fn add_line(path: &str, size: u64, records: u64) -> String {
    format!(
        r#"{{"add":{{"path":"{}","partitionValues":{{}},"size":{},"modificationTime":1700000000000,"dataChange":true,"stats":"{{\"numRecords\":{},\"minValues\":{{}},\"maxValues\":{{}},\"nullCount\":{{}}}}"}}}}"#,
        path, size, records
    )
}

fn big_table(prefix: &str) -> FsDir {
    let v1 = FsFile {
        name: String::from("00000000000000000001.json"),
        data: FileData::Lines(vec![
            add_line(&format!("{}-a.parquet", prefix), 100, 10),
            commit_write(10, 1),
        ]),
    };
    let v2 = FsFile {
        name: String::from("00000000000000000002.json"),
        data: FileData::Lines(vec![
            add_line(&format!("{}-b.parquet", prefix), 300, 20),
            commit_write(20, 1),
        ]),
    };
    FsDir { name: String::from(prefix), files: Vec::new(), dirs: vec![log_dir(vec![v1, v2])] }
}

#[test]
fn test_summarize_tables_delta_big() {
    let root = FsDir {
        name: String::from("delta_big"),
        files: Vec::new(),
        dirs: vec![big_table("uniform"), big_table("fragmented")],
    };
    let summaries = summarize_tables_paginated(
        "tests/data/delta_big",
        &root,
        true,
        Some(5),
        Some(1),
    );
    assert!(!summaries.is_empty(), "Expected at least one table summary");
    println!("Found {} tables", summaries.len());
    for summary in &summaries {
        println!(
            "Table: {}, Files: {}, Version: {}",
            summary.path, summary.num_files, summary.version
        );
    }
    assert_eq!(summaries.len(), 2);
    assert_eq!(summaries[0].num_files, 2);
    assert_eq!(summaries[0].version, 2);
    assert_eq!(summaries[0].total_rows, 30);
    assert_eq!(summaries[0].total_size, 400);
}

#[test]
fn test_get_table_history_delta_big() {
    let root = FsDir {
        name: String::from("delta_big"),
        files: Vec::new(),
        dirs: vec![big_table("uniform"), big_table("fragmented")],
    };
    let histories = get_table_history_paginated(
        "tests/data/delta_big",
        &root,
        true,
        Some(20),
        Some(5),
        Some(1),
    );
    assert!(!histories.is_empty(), "Expected at least one table history");
    println!("Found {} table histories", histories.len());
    for history in &histories {
        println!("Table: {}, Operations: {}", history.path, history.operations.len());
    }
    assert_eq!(histories.len(), 2);
    assert_eq!(histories[0].operations.len(), 2);
    assert_eq!(histories[0].operations[0].version, 2);
    assert_eq!(histories[0].operations[0].total_rows, 30);
    assert_eq!(histories[0].operations[1].version, 1);
    assert_eq!(histories[0].operations[1].total_rows, 10);
}
