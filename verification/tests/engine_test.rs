use lakeview::engine::{reconstruct, summarize_table, summarize_tables_paginated, table_history};
use lakeview::fsmodel::{CheckpointBatch, FileData, FsDir, FsFile};
use lakeview::locate::find_log_dirs;

fn text_file(name: &str, raw: Vec<String>) -> FsFile {
    FsFile { name: String::from(name), data: FileData::Lines(raw) }
}

fn add_line(path: &str, size: u64, records: u64) -> String {
    format!(
        r#"{{"add":{{"path":"{}","partitionValues":{{}},"size":{},"modificationTime":1700000000000,"dataChange":true,"stats":"{{\"numRecords\":{},\"minValues\":{{}},\"maxValues\":{{}},\"nullCount\":{{}}}}"}}}}"#,
        path, size, records
    )
}

fn remove_line(path: &str) -> String {
    format!(
        r#"{{"remove":{{"path":"{}","dataChange":true,"deletionTimestamp":1700000001000,"partitionValues":{{}},"size":1}}}}"#,
        path
    )
}

fn commit_write(rows: u64) -> String {
    format!(
        r#"{{"commitInfo":{{"timestamp":1700000000000,"operation":"WRITE","operationParameters":{{}},"engineInfo":"engine","operationMetrics":{{"execution_time_ms":5,"num_added_files":1,"num_added_rows":{},"num_partitions":1,"num_removed_files":0}},"clientVersion":"client-1"}}}}"#,
        rows
    )
}

fn commit_delete(rows_deleted: u64) -> String {
    format!(
        r#"{{"commitInfo":{{"timestamp":1700000000500,"operation":"DELETE","operationParameters":{{}},"engineInfo":"engine","operationMetrics":{{"execution_time_ms":5,"num_added_files":0,"num_copied_rows":0,"num_deleted_rows":{},"num_removed_files":1,"rewrite_time_ms":2,"scan_time_ms":3}},"clientVersion":"client-1"}}}}"#,
        rows_deleted
    )
}

fn version_name(v: u64) -> String {
    format!("{:020}.json", v)
}

fn log_dir(files: Vec<FsFile>) -> FsDir {
    FsDir { name: String::from("_delta_log"), files, dirs: Vec::new() }
}

#[test]
fn summarize_twice_is_identical() {
    let dir = log_dir(vec![
        text_file(&version_name(1), vec![add_line("a.parquet", 10, 5)]),
        text_file(&version_name(2), vec![add_line("b.parquet", 20, 7)]),
    ]);
    let s1 = summarize_table(String::from("t"), &dir);
    let s2 = summarize_table(String::from("t"), &dir);
    assert_eq!(s1.path, s2.path);
    assert_eq!(s1.num_files, s2.num_files);
    assert_eq!(s1.version, s2.version);
    assert_eq!(s1.last_modified, s2.last_modified);
    assert_eq!(s1.total_rows, s2.total_rows);
    assert_eq!(s1.total_size, s2.total_size);
    assert_eq!(s1.file_size_stats, s2.file_size_stats);
}

#[test]
fn removal_wins_over_later_add() {
    let dir = log_dir(vec![
        text_file(&version_name(1), vec![add_line("p.parquet", 10, 5)]),
        text_file(&version_name(2), vec![remove_line("p.parquet")]),
        text_file(&version_name(3), vec![add_line("p.parquet", 30, 9)]),
    ]);
    let (version, map) = reconstruct(&dir);
    assert_eq!(version, 3);
    assert!(!map.contains(&String::from("p.parquet")));
    assert_eq!(map.len(), 0);
}

#[test]
fn running_totals_fold_in_version_order() {
    let dir = log_dir(vec![
        text_file(&version_name(3), vec![add_line("c.parquet", 1, 50), commit_write(50)]),
        text_file(&version_name(1), vec![add_line("a.parquet", 1, 100), commit_write(100)]),
        text_file(&version_name(2), vec![commit_delete(30)]),
    ]);
    let history = table_history(String::from("t"), &dir, None);
    assert_eq!(history.operations.len(), 3);
    assert_eq!(history.operations[0].version, 3);
    assert_eq!(history.operations[0].total_rows, 120);
    assert_eq!(history.operations[1].version, 2);
    assert_eq!(history.operations[1].total_rows, 70);
    assert_eq!(history.operations[1].rows_deleted, Some(30));
    assert_eq!(history.operations[2].version, 1);
    assert_eq!(history.operations[2].total_rows, 100);
    assert_eq!(history.operations[2].rows_added, Some(100));
}

#[test]
fn nearest_rank_percentiles() {
    let dir = log_dir(vec![
        text_file(&version_name(1), vec![
            add_line("a.parquet", 40, 1),
            add_line("b.parquet", 10, 1),
            add_line("c.parquet", 30, 1),
            add_line("d.parquet", 20, 1),
        ]),
    ]);
    let summary = summarize_table(String::from("t"), &dir);
    let stats = summary.file_size_stats.expect("four files have a distribution");
    assert_eq!(stats.min, 10);
    assert_eq!(stats.p25, 20);
    assert_eq!(stats.median, 30);
    assert_eq!(stats.p75, 30);
    assert_eq!(stats.max, 40);
}

#[test]
fn locator_depth_boundary() {
    let root = FsDir {
        name: String::from("R"),
        files: Vec::new(),
        dirs: vec![
            log_dir(vec![]),
            FsDir {
                name: String::from("sub"),
                files: Vec::new(),
                dirs: vec![log_dir(vec![])],
            },
        ],
    };
    let flat = find_log_dirs("R", &root, false, None);
    assert_eq!(flat.len(), 1);
    assert_eq!(flat[0].0, "R/_delta_log");
    let deep = find_log_dirs("R", &root, true, None);
    assert_eq!(deep.len(), 2);
    assert_eq!(deep[0].0, "R/_delta_log");
    assert_eq!(deep[1].0, "R/sub/_delta_log");
    let marker = log_dir(vec![]);
    let direct_flat = find_log_dirs("R/_delta_log", &marker, false, None);
    assert_eq!(direct_flat.len(), 1);
    assert_eq!(direct_flat[0].0, "R/_delta_log");
    let direct_deep = find_log_dirs("R/_delta_log", &marker, true, None);
    assert_eq!(direct_deep.len(), 1);
    assert_eq!(direct_deep[0].0, "R/_delta_log");
}

fn five_tables() -> FsDir {
    let mut dirs = Vec::new();
    for name in ["t1", "t2", "t3", "t4", "t5"] {
        dirs.push(FsDir {
            name: String::from(name),
            files: Vec::new(),
            dirs: vec![log_dir(vec![text_file(&version_name(1), vec![add_line("a", 1, 1)])])],
        });
    }
    FsDir { name: String::from("root"), files: Vec::new(), dirs }
}

#[test]
fn pagination_slices_in_traversal_order() {
    let root = five_tables();
    let page1 = summarize_tables_paginated("root", &root, true, Some(2), Some(1));
    assert_eq!(page1.len(), 2);
    assert_eq!(page1[0].path, "root/t1/_delta_log");
    assert_eq!(page1[1].path, "root/t2/_delta_log");
    let page3 = summarize_tables_paginated("root", &root, true, Some(2), Some(3));
    assert_eq!(page3.len(), 1);
    assert_eq!(page3[0].path, "root/t5/_delta_log");
    let page4 = summarize_tables_paginated("root", &root, true, Some(2), Some(4));
    assert_eq!(page4.len(), 0);
}

#[test]
fn version_resolution_with_checkpoint() {
    let mut files = vec![
        text_file("_last_checkpoint", vec![String::from(r#"{"version":10,"size":1}"#)]),
        FsFile {
            name: String::from("00000000000000000010.checkpoint.parquet"),
            data: FileData::Batches(vec![CheckpointBatch { adds: Vec::new(), removes: Vec::new() }]),
        },
    ];
    for v in 11..=15u64 {
        files.push(text_file(&version_name(v), vec![add_line("a", 1, 1)]));
    }
    let dir = log_dir(files);
    let (version, _) = reconstruct(&dir);
    assert_eq!(version, 15);

    let dir_old_logs = log_dir(vec![
        text_file("_last_checkpoint", vec![String::from(r#"{"version":10}"#)]),
        FsFile {
            name: String::from("00000000000000000010.checkpoint.parquet"),
            data: FileData::Batches(Vec::new()),
        },
        text_file(&version_name(9), vec![add_line("a", 1, 1)]),
    ]);
    let (version, map) = reconstruct(&dir_old_logs);
    assert_eq!(version, 10);
    assert_eq!(map.len(), 0);
}

#[test]
fn checkpoint_baseline_feeds_the_merge() {
    let batch = CheckpointBatch {
        adds: vec![
            lakeview::fsmodel::CheckpointAdd {
                path: String::from("base.parquet"),
                size: 500,
                modification_time: 1600000000000,
                stats: String::from(r#"{"numRecords":77}"#),
            },
            lakeview::fsmodel::CheckpointAdd {
                path: String::from("gone.parquet"),
                size: 5,
                modification_time: 1,
                stats: String::from("not json"),
            },
        ],
        removes: vec![String::from("gone.parquet")],
    };
    let dir = log_dir(vec![
        text_file("_last_checkpoint", vec![String::from(r#"{"version":10}"#)]),
        FsFile {
            name: String::from("00000000000000000010.checkpoint.parquet"),
            data: FileData::Batches(vec![batch]),
        },
        text_file(&version_name(11), vec![add_line("new.parquet", 100, 3)]),
    ]);
    let (version, map) = reconstruct(&dir);
    assert_eq!(version, 11);
    assert_eq!(map.len(), 2);
    assert!(map.contains(&String::from("base.parquet")));
    assert!(map.contains(&String::from("new.parquet")));
    assert!(!map.contains(&String::from("gone.parquet")));
    let summary = summarize_table(String::from("t"), &dir);
    assert_eq!(summary.total_rows, 80);
    assert_eq!(summary.total_size, 600);
}

#[test]
fn parse_failures_are_skipped_in_merge() {
    let dir = log_dir(vec![
        text_file(&version_name(1), vec![add_line("a.parquet", 10, 5)]),
        text_file(&version_name(2), vec![String::from("broken line")]),
    ]);
    let (version, map) = reconstruct(&dir);
    assert_eq!(version, 2);
    assert_eq!(map.len(), 1);
}

#[test]
fn history_limit_truncates_after_reversal() {
    let dir = log_dir(vec![
        text_file(&version_name(1), vec![commit_write(1)]),
        text_file(&version_name(2), vec![commit_write(2)]),
        text_file(&version_name(3), vec![commit_write(3)]),
    ]);
    let history = table_history(String::from("t"), &dir, Some(2));
    assert_eq!(history.operations.len(), 2);
    assert_eq!(history.operations[0].version, 3);
    assert_eq!(history.operations[1].version, 2);
}

#[test]
fn empty_tree_yields_no_tables() {
    let root = FsDir { name: String::from("root"), files: Vec::new(), dirs: Vec::new() };
    let summaries = summarize_tables_paginated("root", &root, true, None, None);
    assert!(summaries.is_empty());
}

#[test]
fn hello_names_the_library() {
    assert_eq!(lakeview::hello_from_bin(), "Hello from lakeview!");
}
