use performance_utils::analyzer::{PerformanceAnalyzer, PerformanceStats};
use performance_utils::monitor::RealtimeMonitor;

#[test]
fn fresh_analyzer_reports_zero() {
    let analyzer = PerformanceAnalyzer::new();
    let stats: PerformanceStats = analyzer.get_statistics();
    assert_eq!(stats.sample_count, 0);
    assert_eq!(stats.total_time, 0);
    assert_eq!(stats.average_time, 0);
    assert_eq!(stats.median_time, 0);
    assert_eq!(stats.p95_time, 0);
    assert_eq!(stats.min_time, 0);
    assert_eq!(stats.max_time, 0);
    assert_eq!(stats.average_memory, 0);
}

#[test]
fn sample_without_measurement_is_ignored() {
    let mut analyzer = PerformanceAnalyzer::new();
    analyzer.record_sample();
    assert_eq!(analyzer.get_statistics().sample_count, 0);
}

#[test]
fn statistics_are_consistent() {
    let mut analyzer = PerformanceAnalyzer::new();
    analyzer.start_measurement();
    for _ in 0..5 {
        analyzer.record_sample();
    }
    let stats = analyzer.get_statistics();
    assert_eq!(stats.sample_count, 5);
    assert!(stats.min_time <= stats.median_time);
    assert!(stats.median_time <= stats.max_time);
    assert!(stats.min_time <= stats.p95_time && stats.p95_time <= stats.max_time);
    assert_eq!(stats.average_time as u128, stats.total_time / 5);
}

#[test]
fn memory_average_is_exact() {
    let mut analyzer = PerformanceAnalyzer::new();
    analyzer.start_measurement();
    analyzer.record_sample();
    analyzer.record_memory_usage(10);
    analyzer.record_memory_usage(20);
    analyzer.record_memory_usage(33);
    let stats = analyzer.get_statistics();
    assert_eq!(stats.average_memory, 21);
}

#[test]
fn monitor_counts_operations_and_errors() {
    let mut monitor = RealtimeMonitor::new();
    for _ in 0..7 {
        monitor.record_operation();
    }
    monitor.record_error();
    monitor.record_error();
    let stats = monitor.get_current_stats();
    assert_eq!(stats.total_operations, 7);
    assert_eq!(stats.total_errors, 2);
    let secs = stats.uptime_nanos / 1_000_000_000;
    let expected = if secs > 0 { stats.total_operations / secs } else { 0 };
    assert_eq!(stats.operations_per_second, expected);
}
