use performance_utils::processor::{
    ConfigurationError, FileInput, FileProcessor, PerformanceConfig, PerformanceMetrics,
};

fn small_config() -> PerformanceConfig {
    PerformanceConfig {
        max_threads: 2,
        cache_size: 16,
        enable_metrics: true,
        compression_level: 6,
        batch_size: 2,
    }
}

fn item(path: &str, bytes: &[u8]) -> FileInput {
    FileInput { path: path.to_string(), content: Ok(bytes.to_vec()) }
}

fn bad_item(path: &str, error: &str) -> FileInput {
    FileInput { path: path.to_string(), content: Err(error.to_string()) }
}

#[test]
fn construction_rejects_zero_sizes() {
    let mut config = small_config();
    config.max_threads = 0;
    assert_eq!(FileProcessor::new(config).err(), Some(ConfigurationError::ZeroThreads));
    let mut config = small_config();
    config.cache_size = 0;
    assert_eq!(FileProcessor::new(config).err(), Some(ConfigurationError::ZeroCacheSize));
    let mut config = small_config();
    config.batch_size = 0;
    assert_eq!(FileProcessor::new(config).err(), Some(ConfigurationError::ZeroBatchSize));
    assert!(FileProcessor::new(small_config()).is_ok());
}

#[test]
fn default_config_is_valid() {
    let config = PerformanceConfig::default();
    assert!(config.max_threads >= 1);
    assert_eq!(config.cache_size, 1024 * 1024);
    assert!(config.enable_metrics);
    assert_eq!(config.compression_level, 6);
    assert_eq!(config.batch_size, 100);
}

#[test]
fn results_keep_input_order() {
    let mut processor = FileProcessor::new(small_config()).unwrap();
    let files = vec![
        item("first.txt", b"aaaaaaaaaaaaaaaaaaaaaaaaaaaaaaaaaaaaaaaa"),
        item("second.txt", b"bbbbbbbbbbbbbbbbbbbb"),
        item("third.txt", b"cccccccccc"),
    ];
    let (results, _metrics) = processor.process_files_parallel(files);
    assert_eq!(results.len(), 3);
    assert_eq!(results[0].file_path, "first.txt");
    assert_eq!(results[1].file_path, "second.txt");
    assert_eq!(results[2].file_path, "third.txt");
}

#[test]
fn one_failure_does_not_abort_the_batch() {
    let mut processor = FileProcessor::new(small_config()).unwrap();
    let files = vec![
        item("ok1.txt", b"some bytes that compress fine"),
        bad_item("broken.txt", "permission denied"),
        item("ok2.txt", b"other bytes that compress fine"),
    ];
    let (results, metrics) = processor.process_files_parallel(files);
    assert_eq!(results.len(), 3);
    let failures: Vec<_> = results.iter().filter(|r| !r.success).collect();
    assert_eq!(failures.len(), 1);
    assert_eq!(failures[0].file_path, "broken.txt");
    // the reading error is surfaced verbatim
    assert_eq!(failures[0].message, "permission denied");
    assert_eq!(failures[0].output_size, 0);
    assert!(results[0].success && results[2].success);
    assert_eq!(metrics.total_operations, 3);
    assert_eq!(metrics.successful_operations, 2);
    assert_eq!(metrics.failed_operations, 1);
}

#[test]
fn second_run_hits_the_cache() {
    let mut processor = FileProcessor::new(small_config()).unwrap();
    let files = vec![item("shared.txt", b"payload payload payload payload")];
    let (first, _m1) = processor.process_files_parallel(files);
    assert!(first[0].success);
    assert_eq!(first[0].message, "Processed successfully");

    // the same identifier again, now without readable bytes: the cached
    // output must answer, proving the transform did not run again
    let again = vec![bad_item("shared.txt", "gone from disk")];
    let (second, m2) = processor.process_files_parallel(again);
    assert!(second[0].success);
    assert_eq!(second[0].message, "Cache hit");
    assert_eq!(second[0].output_size, first[0].output_size);
    assert_eq!(m2.cache_hits, 1);
}

#[test]
fn transform_compresses_and_reports_ratio() {
    let mut processor = FileProcessor::new(small_config()).unwrap();
    let payload = vec![b'a'; 1000];
    let (results, _m) = processor.process_files_parallel(vec![item("big.txt", &payload)]);
    assert!(results[0].success);
    // repetitive input shrinks, so the output is not the input handed back
    assert!(results[0].output_size < 1000);
    assert!(results[0].output_size > 0);
    assert!(results[0].compression_ratio > 0);
    let expected = 1000 - (results[0].output_size as i128) * 1000 / 1000;
    assert_eq!(results[0].compression_ratio, expected);
}

#[test]
fn chunked_batches_cover_every_item() {
    let mut config = small_config();
    config.batch_size = 2;
    let mut processor = FileProcessor::new(config).unwrap();
    let files: Vec<FileInput> =
        (0..5).map(|i| item(&format!("f{}.txt", i), b"chunked chunked chunked")).collect();
    let (results, metrics) = processor.process_files_parallel(files);
    assert_eq!(results.len(), 5);
    for (i, r) in results.iter().enumerate() {
        assert_eq!(r.file_path, format!("f{}.txt", i));
        assert!(r.success);
    }
    assert_eq!(metrics.total_operations, 5);
    assert_eq!(metrics.successful_operations, 5);
    assert_eq!(metrics.failed_operations, 0);
    assert_eq!(metrics.cache_misses, 5);
    assert_eq!(metrics.cache_hits, 0);
}

#[test]
fn empty_run_yields_zero_metrics() {
    let mut processor = FileProcessor::new(small_config()).unwrap();
    let (results, metrics) = processor.process_files_parallel(Vec::new());
    assert!(results.is_empty());
    assert_eq!(metrics.total_operations, 0);
    assert_eq!(metrics.successful_operations, 0);
    assert_eq!(metrics.failed_operations, 0);
    assert_eq!(metrics.average_processing_time, 0);
    let kept: PerformanceMetrics = processor.metrics();
    assert_eq!(kept.total_operations, 0);
}
