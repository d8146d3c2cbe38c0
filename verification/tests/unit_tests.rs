use test_log_collector::TestLogCollector;

#[test]
fn test_new_collector_is_empty() {
    let collector = TestLogCollector::new();
    assert_eq!(collector.count(), 0);
    assert!(collector.clone_lines().is_empty());
}

#[test]
fn test_write_single_line() {
    let mut collector = TestLogCollector::new();
    collector.write("Hello world\n".as_bytes());

    assert_eq!(collector.count(), 1);
    assert_eq!(collector.clone_lines(), vec!["Hello world"]);
}

#[test]
fn test_write_multiple_lines() {
    let mut collector = TestLogCollector::new();
    collector.write("Line 1\n".as_bytes());
    collector.write("Line 2\n".as_bytes());
    collector.write("Line 3\n".as_bytes());

    assert_eq!(collector.count(), 3);
    assert_eq!(collector.clone_lines(), vec!["Line 1", "Line 2", "Line 3"]);
}

#[test]
fn test_write_without_newline() {
    let mut collector = TestLogCollector::new();
    collector.write("No newline".as_bytes());

    // No complete line yet
    assert_eq!(collector.count(), 0);

    // Flush should complete the line
    collector.flush();
    assert_eq!(collector.count(), 1);
    assert_eq!(collector.clone_lines(), vec!["No newline"]);
}

#[test]
fn test_write_mixed_content() {
    let mut collector = TestLogCollector::new();
    collector.write("Partial line".as_bytes());
    collector.write(" completed\n".as_bytes());
    collector.write("Full line\n".as_bytes());
    collector.write("Another partial".as_bytes());

    assert_eq!(collector.count(), 2);
    assert_eq!(collector.clone_lines(), vec!["Partial line completed", "Full line"]);

    // Flush the remaining partial line
    collector.flush();
    assert_eq!(collector.count(), 3);
    assert_eq!(
        collector.clone_lines(),
        vec!["Partial line completed", "Full line", "Another partial"]
    );
}

#[test]
fn test_clear() {
    let mut collector = TestLogCollector::new();
    collector.write("Line 1\n".as_bytes());
    collector.write("Line 2\n".as_bytes());
    collector.write("Partial".as_bytes());

    assert_eq!(collector.count(), 2);

    collector.clear();
    assert_eq!(collector.count(), 0);
    assert!(collector.clone_lines().is_empty());
}

#[test]
fn test_lines_reference() {
    let mut collector = TestLogCollector::new();
    collector.write("Test line\n".as_bytes());

    let lines = collector.lines();
    assert_eq!(lines.len(), 1);
    assert_eq!(lines[0], "Test line");
}

#[test]
fn test_empty_lines() {
    let mut collector = TestLogCollector::new();
    collector.write("\n".as_bytes());
    collector.write("Not empty\n".as_bytes());
    collector.write("\n".as_bytes());

    assert_eq!(collector.count(), 3);
    assert_eq!(collector.clone_lines(), vec!["", "Not empty", ""]);
}

#[test]
fn test_raw_write() {
    let mut collector = TestLogCollector::new();
    collector.write(b"Hello\nWorld\n");

    assert_eq!(collector.count(), 2);
    assert_eq!(collector.clone_lines(), vec!["Hello", "World"]);
}
