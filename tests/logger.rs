use std::collections::HashMap;
use ubuntu_config_scripts::logger::{
    format_table, log_command, log_debug, log_error, log_file_op, log_info, log_result,
    log_script_complete, log_script_error, log_script_start, log_status, log_success, log_warn,
    LogContext, LogEntry, LogLevel, PerformanceTimer, ProgressTracker,
};

fn now() -> String {
    chrono::Local::now().to_rfc3339()
}

#[test]
fn test_performance_timer_creation() {
    let timer = PerformanceTimer::new("test operation");
    std::mem::drop(timer);
}

#[test]
fn test_performance_timer_finish() {
    let timer = PerformanceTimer::new("test finish");
    timer.finish();
}

#[test]
fn test_performance_timer_fail() {
    let timer = PerformanceTimer::new("test fail");
    timer.fail("test error message");
}

#[test]
fn test_log_functions_dont_panic() {
    let _ = env_logger::Builder::from_default_env()
        .filter_level(log::LevelFilter::Info)
        .try_init();

    log_debug("Test debug message", "TEST");
    log_info("Test info message", "TEST");
    log_warn("Test warning message", "TEST");
    log_error("Test error message", "TEST");

    log_command(&["echo", "test"], "TEST");
    log_file_op("read", "/tmp/test", "TEST");
    log_status("running", "TEST");

    log_script_start("test_script");
    log_script_complete("test_script");
    log_script_error("test_script", "test error");
}

#[test]
fn test_logger_levels() {
    assert_ne!(LogLevel::Debug, LogLevel::Info);
    assert_ne!(LogLevel::Info, LogLevel::Warn);
    assert_ne!(LogLevel::Warn, LogLevel::Error);
}

#[test]
fn test_log_level_enum() {
    assert_eq!(LogLevel::Debug, LogLevel::Debug);
    assert_ne!(LogLevel::Debug, LogLevel::Info);

    let debug_str = format!("{:?}", LogLevel::Debug);
    assert!(debug_str.contains("Debug"));
}

#[test]
fn test_logger_multiple_initialization() {
    let _ = LogLevel::Info;
}

#[test]
fn test_log_entry_creation() {
    let entry = LogEntry::new("INFO", "TEST", "Test message", &now());
    assert_eq!(entry.level, "INFO");
    assert_eq!(entry.component, "TEST");
    assert_eq!(entry.message, "Test message");
    assert!(entry.metadata.is_none());
    assert!(!entry.timestamp.is_empty());
}

#[test]
fn test_log_entry_with_metadata() {
    let mut metadata = HashMap::new();
    metadata.insert("key1".to_string(), "value1".to_string());
    metadata.insert("key2".to_string(), "value2".to_string());

    let entry = LogEntry::new("DEBUG", "TEST", "Test with metadata", &now())
        .with_metadata(metadata.clone());

    assert_eq!(entry.metadata, Some(metadata));
}

#[test]
fn test_log_entry_log_method() {
    let entry = LogEntry::new("INFO", "TEST", "Test log", &now());
    entry.log();

    let entry = LogEntry::new("DEBUG", "TEST", "Debug log", &now());
    entry.log();

    let entry = LogEntry::new("WARN", "TEST", "Warn log", &now());
    entry.log();

    let entry = LogEntry::new("ERROR", "TEST", "Error log", &now());
    entry.log();

    let entry = LogEntry::new("UNKNOWN", "TEST", "Unknown log", &now());
    entry.log();
}

#[test]
fn test_progress_tracker_creation() {
    let tracker = ProgressTracker::new(100, "Processing items");
    std::mem::drop(tracker);
}

#[test]
fn test_progress_tracker_update() {
    let mut tracker = ProgressTracker::new(10, "Test progress");
    tracker.update(5);
    tracker.update(10);
}

#[test]
fn test_progress_tracker_increment() {
    let mut tracker = ProgressTracker::new(5, "Incremental progress");
    tracker.increment();
    tracker.increment();
    tracker.increment();
}

#[test]
fn test_progress_tracker_finish() {
    let tracker = ProgressTracker::new(50, "Finishing progress");
    tracker.finish();
}

#[test]
fn test_log_context_creation() {
    let context = LogContext::new("TestContext");
    std::mem::drop(context);
}

#[test]
fn test_log_context_logging() {
    let context = LogContext::new("TestContext");
    context.log(LogLevel::Debug, "Debug message");
    context.log(LogLevel::Info, "Info message");
    context.log(LogLevel::Warn, "Warning message");
    context.log(LogLevel::Error, "Error message");
}

#[test]
fn test_log_context_drop() {
    {
        let _context = LogContext::new("ScopedContext");
    }
}

#[test]
fn test_log_result_success() {
    let result: Result<i32, String> = Ok(42);
    log_result(&result, "Operation succeeded", "TEST");
}

#[test]
fn test_log_result_failure() {
    let result: Result<i32, String> = Err("Test error".to_string());
    log_result(&result, "Operation succeeded", "TEST");
}

#[test]
fn test_format_table_empty() {
    let headers = vec!["Col1", "Col2"];
    let rows: Vec<Vec<String>> = vec![];
    let table = format_table(headers, rows);

    assert!(table.contains("Col1"));
    assert!(table.contains("Col2"));
    assert!(table.contains("┌"));
    assert!(table.contains("└"));
}

#[test]
fn test_format_table_with_data() {
    let headers = vec!["Name", "Value"];
    let rows = vec![
        vec!["Item1".to_string(), "100".to_string()],
        vec!["Item2".to_string(), "200".to_string()],
    ];
    let table = format_table(headers, rows);

    assert!(table.contains("Name"));
    assert!(table.contains("Value"));
    assert!(table.contains("Item1"));
    assert!(table.contains("100"));
    assert!(table.contains("Item2"));
    assert!(table.contains("200"));
}

#[test]
fn test_format_table_varying_widths() {
    let headers = vec!["Short", "Very Long Header"];
    let rows = vec![
        vec!["A".to_string(), "B".to_string()],
        vec!["This is a long cell".to_string(), "X".to_string()],
    ];
    let table = format_table(headers, rows);

    assert!(table.contains("Short"));
    assert!(table.contains("Very Long Header"));
    assert!(table.contains("This is a long cell"));
}

#[test]
fn log_line_texts() {
    let line = log_info("hello", "AUDIO");
    assert_eq!(line.level, LogLevel::Info);
    assert_eq!(line.text, "[AUDIO] hello");
    assert_eq!(log_debug("d", "C").level, LogLevel::Debug);
    assert_eq!(log_warn("w", "C").text, "[C] w");
    assert_eq!(log_error("e", "C").level, LogLevel::Error);
    assert_eq!(log_command(&["ls", "-la", "/tmp"], "SYS").text, "[SYS] Executing: ls -la /tmp");
    assert_eq!(log_command(&[], "SYS").text, "[SYS] Executing: ");
    assert_eq!(log_file_op("write", "/etc/x", "FS").text, "[FS] write: /etc/x");
    assert_eq!(log_status("ok", "S").text, "[S] Status: ok");
    assert_eq!(log_success("done", "S").text, "✅ [S] done");
    assert_eq!(log_script_start("s").text, "🚀 Starting script: s");
    assert_eq!(log_script_complete("s").text, "✅ Script completed: s");
    assert_eq!(log_script_error("s", "boom").text, "❌ Script failed: s - boom");
    let failed: Result<(), String> = Err("bad".to_string());
    let line = log_result(&failed, "fine", "T");
    assert_eq!(line.level, LogLevel::Error);
    assert_eq!(line.text, "[T] Failed: bad");
    assert_eq!(log_result(&Ok::<u8, String>(1), "fine", "T").text, "[T] fine");
}

#[test]
fn entry_and_context_lines() {
    assert_eq!(LogEntry::new("WARN", "A", "m", &now()).log().level, LogLevel::Warn);
    assert_eq!(LogEntry::new("other", "A", "m", &now()).log().level, LogLevel::Info);
    assert_eq!(LogEntry::new("DEBUG", "A", "m", &now()).log().text, "[A] m");
    let context = LogContext::new("ctx");
    assert_eq!(context.log(LogLevel::Warn, "careful").text, "[ctx] careful");
    assert_eq!(context.entered().text, "➡️  Entering context: ctx");
    assert!(context.leaving().text.starts_with("⬅️  Leaving context: ctx (took "));
    let timer = PerformanceTimer::new("build");
    assert_eq!(timer.started().text, "⏱️  Starting: build");
    assert!(timer.finish().text.starts_with("✅ Completed: build (took "));
    let line = PerformanceTimer::new("build").fail("oops");
    assert_eq!(line.level, LogLevel::Error);
    assert!(line.text.starts_with("❌ Failed: build after ") && line.text.ends_with(" - oops"));
}

#[test]
fn progress_lines() {
    let mut tracker = ProgressTracker::new(4, "copy");
    assert_eq!(tracker.started().text, "📊 Starting: copy (0/4)");
    assert_eq!(tracker.update(1).text, "📊 Progress: copy (1/4) - 25%");
    assert_eq!(tracker.increment().text, "📊 Progress: copy (2/4) - 50%");
    assert_eq!(tracker.update(10).text, "📊 Progress: copy (10/4) - 250%");
    assert!(tracker.finish().text.starts_with("✅ Completed: copy (4/4) in "));
    let mut empty = ProgressTracker::new(0, "none");
    assert_eq!(empty.update(0).text, "📊 Progress: none (0/0) - 0%");
    assert_eq!(empty.update(3).text, "📊 Progress: none (3/0) - 4294967295%");
}

#[test]
fn table_layout() {
    let table = format_table(vec!["Name", "Value"], vec![vec!["a".to_string(), "1".to_string()]]);
    let expected = "┌──────┬───────┐\n│ Name │ Value │\n├──────┼───────┤\n│ a    │ 1     │\n└──────┴───────┘";
    assert_eq!(table, expected);
    // Extra cells beyond the headers are left out; short rows stay short.
    let table = format_table(vec!["H"], vec![vec!["x".to_string(), "y".to_string()], vec![]]);
    assert_eq!(table, "┌───┐\n│ H │\n├───┤\n│ x │\n│\n└───┘");
    assert_eq!(format_table(vec![], vec![]), "┌┐\n│\n├┤\n└┘");
}

#[test]
fn entry_keeps_the_given_timestamp() {
    let entry = LogEntry::new("INFO", "T", "m", "2024-01-02T03:04:05+00:00");
    assert_eq!(entry.timestamp, "2024-01-02T03:04:05+00:00");
}

#[test]
fn tracker_percent_is_exact_integer_share() {
    let mut tracker = ProgressTracker::new(100, "p");
    assert_eq!(tracker.update(29).text, "📊 Progress: p (29/100) - 29%");
    let mut thirds = ProgressTracker::new(3, "t");
    assert_eq!(thirds.update(1).text, "📊 Progress: t (1/3) - 33%");
}
