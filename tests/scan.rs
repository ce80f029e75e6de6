use daft_local_execution::scan::{push_decimal, ClusteringSpec, ScanTask, TabularScan};

#[test]
fn tabular_scan_display() {
    let scan = TabularScan::new(
        vec![
            ScanTask::new(Some(100)),
            ScanTask::new(None),
            ScanTask::new(Some(2048)),
        ],
        ClusteringSpec::new(vec!["Num partitions = 3".to_string(), "By = a".to_string()]),
    );
    assert_eq!(
        scan.multiline_display(),
        vec![
            "TabularScan:".to_string(),
            "Num Scan Tasks = 3".to_string(),
            "Estimated Scan Bytes = 2148".to_string(),
            "Clustering spec = { Num partitions = 3, By = a }".to_string(),
        ]
    );
}

#[test]
fn tabular_scan_display_without_tasks() {
    let scan = TabularScan::new(Vec::new(), ClusteringSpec::new(Vec::new()));
    assert_eq!(
        scan.multiline_display(),
        vec![
            "TabularScan:".to_string(),
            "Num Scan Tasks = 0".to_string(),
            "Estimated Scan Bytes = 0".to_string(),
            "Clustering spec = {  }".to_string(),
        ]
    );
}

#[test]
fn decimal_digits() {
    let mut s = String::from("n=");
    push_decimal(&mut s, 907);
    assert_eq!(s, "n=907");
    let mut t = String::new();
    push_decimal(&mut t, usize::MAX);
    assert_eq!(t, usize::MAX.to_string());
}
