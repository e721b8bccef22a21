use crate::cache::HighPerformanceCache;
use crate::compress::{gzip_compress, gzip_of};
use crate::timing::{elapsed_nanos, instant_now};
use vstd::prelude::*;

verus! {

broadcast use vstd::string::group_string_axioms;

/// Configuration for a batch run: how many workers may execute at once, how
/// many entries the result cache holds, whether metrics are wanted, the gzip
/// level of the transform, and how many items go into one chunk.
#[derive(Clone, Copy, Debug)]
pub struct PerformanceConfig {
    pub max_threads: usize,
    pub cache_size: usize,
    pub enable_metrics: bool,
    pub compression_level: u8,
    pub batch_size: usize,
}

impl PerformanceConfig {
    /// A configuration is usable when none of its sizes is zero.
    pub open spec fn valid(self) -> bool {
        self.max_threads > 0 && self.cache_size > 0 && self.batch_size > 0
    }
}

/// Relies on num_cpus::get: the number of logical processors, which its
/// documentation promises to be at least 1. The value depends on the machine,
/// so nothing more is promised of it.
#[verifier::external_body]
fn cpu_count() -> (r: usize)
    ensures
        r >= 1,
{
    num_cpus::get()
}

impl Default for PerformanceConfig {
    /// One worker per logical processor, a cache of a million entries,
    /// metrics on, a middling compression level and chunks of a hundred.
    fn default() -> (r: Self)
        ensures
            r.valid(),
            r.max_threads >= 1,
            r.cache_size == 1024 * 1024,
            r.enable_metrics,
            r.compression_level == 6,
            r.batch_size == 100,
    {
        PerformanceConfig {
            max_threads: cpu_count(),
            cache_size: 1024 * 1024,
            enable_metrics: true,
            compression_level: 6,
            batch_size: 100,
        }
    }
}

/// Aggregate counters for one batch run. Times are in nanoseconds.
#[derive(Clone, Copy, Debug)]
pub struct PerformanceMetrics {
    pub total_operations: u64,
    pub successful_operations: u64,
    pub failed_operations: u64,
    pub total_processing_time: u64,
    pub average_processing_time: u64,
    pub memory_usage: usize,
    pub cache_hits: u64,
    pub cache_misses: u64,
}

impl PerformanceMetrics {
    /// All counters at zero.
    pub open spec fn is_zero(self) -> bool {
        &&& self.total_operations == 0
        &&& self.successful_operations == 0
        &&& self.failed_operations == 0
        &&& self.total_processing_time == 0
        &&& self.average_processing_time == 0
        &&& self.memory_usage == 0
        &&& self.cache_hits == 0
        &&& self.cache_misses == 0
    }
}

impl Default for PerformanceMetrics {
    fn default() -> (r: Self)
        ensures
            r.is_zero(),
    {
        PerformanceMetrics {
            total_operations: 0,
            successful_operations: 0,
            failed_operations: 0,
            total_processing_time: 0,
            average_processing_time: 0,
            memory_usage: 0,
            cache_hits: 0,
            cache_misses: 0,
        }
    }
}

/// What processing one work item produced: the item's identifier, whether it
/// succeeded, the wall time spent on it in nanoseconds, the size of the
/// produced output, a short account of what happened, and how much space the
/// transform saved, in thousandths of the input size.
#[derive(Clone, Debug)]
pub struct ProcessResult {
    pub file_path: String,
    pub success: bool,
    pub processing_time: u64,
    pub output_size: usize,
    pub message: String,
    pub compression_ratio: i128,
}

/// One unit of work for a run: the identifier of an artifact together with
/// the bytes behind it, or with the error that producing those bytes gave.
pub struct FileInput {
    pub path: String,
    pub content: Result<Vec<u8>, String>,
}

/// Why a processor could not be built: one of the configured sizes is zero.
#[derive(Clone, Copy, Debug, PartialEq, Eq, Structural)]
pub enum ConfigurationError {
    ZeroThreads,
    ZeroCacheSize,
    ZeroBatchSize,
}

/// The space saved by a transform from `original` to `compressed` bytes, in
/// thousandths of the original size: 0 for an empty input, negative when the
/// output grew.
pub open spec fn ratio_permille(original: int, compressed: int) -> int {
    if original > 0 {
        1000 - (compressed * 1000) / original
    } else {
        0
    }
}

/// The compression level actually handed to the transform: levels above 9
/// are capped to 9.
pub open spec fn clamped_level(level: u8) -> u8 {
    if level < 9 {
        level
    } else {
        9u8
    }
}

/// How many of the results report success.
pub open spec fn count_successes(rs: Seq<ProcessResult>) -> int
    decreases rs.len(),
{
    if rs.len() == 0 {
        0
    } else {
        count_successes(rs.drop_last()) + if rs.last().success {
            1int
        } else {
            0int
        }
    }
}

/// The result an item gets when its key is already cached: a success that
/// reports the cached output's size without running the transform.
pub open spec fn hit_result(
    pre: HighPerformanceCache<Vec<u8>>,
    f: FileInput,
    r: ProcessResult,
) -> bool {
    &&& r.file_path@ == f.path@
    &&& r.success
    &&& r.message@ == "Cache hit"@
    &&& r.output_size == pre.value_of(f.path@)@.len()
    &&& r.compression_ratio == 0
}

/// The result an item gets when its bytes could not be produced: a failure
/// that carries the reading error verbatim.
pub open spec fn read_failure_result(f: FileInput, r: ProcessResult) -> bool {
    &&& r.file_path@ == f.path@
    &&& !r.success
    &&& (f.content matches Err(e) && r.message@ == e@)
    &&& r.output_size == 0
    &&& r.compression_ratio == 0
}

/// The result an item gets when the transform ran and succeeded: the output
/// is the gzip stream of the input bytes, and the ratio measures the space
/// it saved.
pub open spec fn transform_success_result(f: FileInput, level: u8, r: ProcessResult) -> bool {
    &&& r.file_path@ == f.path@
    &&& r.success
    &&& r.message@ == "Processed successfully"@
    &&& (f.content matches Ok(bytes) && r.output_size == gzip_of(
        bytes@,
        clamped_level(level),
    ).len() && r.compression_ratio == ratio_permille(
        bytes@.len() as int,
        gzip_of(bytes@, clamped_level(level)).len() as int,
    ))
}

/// Appending a result moves the success count by one exactly when the
/// result reports success.
proof fn lemma_count_successes_push(rs: Seq<ProcessResult>, r: ProcessResult)
    ensures
        count_successes(rs.push(r)) == count_successes(rs) + if r.success {
            1int
        } else {
            0int
        },
{
    assert(rs.push(r).drop_last() =~= rs);
    assert(rs.push(r).last() == r);
}

/// The space saved between an input and an output size, in thousandths of
/// the input size.
fn compute_ratio(original: usize, compressed: usize) -> (r: i128)
    ensures
        r == ratio_permille(original as int, compressed as int),
{
    if original > 0 {
        1000 - ((compressed as i128) * 1000) / (original as i128)
    } else {
        0
    }
}

/// Runs batches of work items against a shared recency cache and the gzip
/// transform, one result per item, in order.
pub struct FileProcessor {
    config: PerformanceConfig,
    metrics: PerformanceMetrics,
    cache: HighPerformanceCache<Vec<u8>>,
}

impl FileProcessor {
    /// The configuration given at construction.
    pub closed spec fn spec_config(self) -> PerformanceConfig {
        self.config
    }

    /// The metrics of the latest run, zero before the first.
    pub closed spec fn spec_metrics(self) -> PerformanceMetrics {
        self.metrics
    }

    /// The result cache, shared by all runs of this processor.
    pub closed spec fn spec_cache(self) -> HighPerformanceCache<Vec<u8>> {
        self.cache
    }

    /// A processor is well-formed when its configuration is valid and its
    /// cache is well-formed with the configured capacity.
    pub open spec fn wf(self) -> bool {
        &&& self.spec_config().valid()
        &&& self.spec_cache().wf()
        &&& self.spec_cache().cap() == self.spec_config().cache_size
    }

    /// Builds a processor over a fresh cache, rejecting any configuration
    /// with a zero size before any item is processed.
    pub fn new(config: PerformanceConfig) -> (r: Result<FileProcessor, ConfigurationError>)
        ensures
            config.valid() ==> (r matches Ok(p) && p.wf() && p.spec_config() == config
                && p.spec_metrics().is_zero() && p.spec_cache().model() =~= Seq::<
                (Seq<char>, Vec<u8>),
            >::empty() && p.spec_cache().spec_hits() == 0 && p.spec_cache().spec_misses() == 0),
            config.max_threads == 0 ==> r == Err::<FileProcessor, _>(
                ConfigurationError::ZeroThreads,
            ),
            config.max_threads > 0 && config.cache_size == 0 ==> r == Err::<FileProcessor, _>(
                ConfigurationError::ZeroCacheSize,
            ),
            config.max_threads > 0 && config.cache_size > 0 && config.batch_size == 0 ==> r
                == Err::<FileProcessor, _>(ConfigurationError::ZeroBatchSize),
    {
        if config.max_threads == 0 {
            return Err(ConfigurationError::ZeroThreads);
        }
        if config.cache_size == 0 {
            return Err(ConfigurationError::ZeroCacheSize);
        }
        if config.batch_size == 0 {
            return Err(ConfigurationError::ZeroBatchSize);
        }
        let cache = HighPerformanceCache::new(config.cache_size);
        Ok(FileProcessor { config, metrics: PerformanceMetrics::default(), cache })
    }

    /// The metrics of the latest run.
    pub fn metrics(&self) -> (r: PerformanceMetrics)
        ensures
            r == self.spec_metrics(),
    {
        self.metrics
    }

    /// Runs the transform over one item's bytes: the gzip stream of the
    /// bytes at the configured (capped) level, together with the space it
    /// saved. Encoding into memory cannot fail, so the result is always
    /// `Ok`; the error arm only forwards what the encoder would report.
    fn process_file_content(&self, content: &Vec<u8>) -> (r: Result<(Vec<u8>, i128), String>)
        ensures
            r is Ok,
            r matches Ok(p) ==> p.0@ == gzip_of(
                content@,
                clamped_level(self.spec_config().compression_level),
            ) && p.1 == ratio_permille(content@.len() as int, p.0@.len() as int),
    {
        let level = if self.config.compression_level < 9 {
            self.config.compression_level
        } else {
            9
        };
        match gzip_compress(content.as_slice(), level) {
            Ok(out) => {
                let ratio = compute_ratio(content.len(), out.len());
                Ok((out, ratio))
            },
            Err(e) => Err(e),
        }
    }

    /// Processes one item against the cache and the transform. A cached key
    /// is a hit and skips the transform; an item whose bytes could not be
    /// read fails, carrying the reading error, without aborting anything;
    /// otherwise the bytes are transformed and the output cached under the
    /// item's key.
    pub fn process_single_file(&mut self, f: &FileInput) -> (r: ProcessResult)
        requires
            old(self).wf(),
        ensures
            final(self).wf(),
            final(self).spec_config() == old(self).spec_config(),
            final(self).spec_metrics() == old(self).spec_metrics(),
            final(self).spec_cache().cap() == old(self).spec_cache().cap(),
            r.file_path@ == f.path@,
            // the item meets exactly one of the three outcomes
            (if old(self).spec_cache().contains_key(f.path@) {
                hit_result(old(self).spec_cache(), *f, r)
            } else if f.content is Err {
                read_failure_result(*f, r)
            } else {
                transform_success_result(*f, old(self).spec_config().compression_level, r)
            }),
            // keys appear only for this item, and disappear only by eviction
            forall|k: Seq<char>|
                final(self).spec_cache().contains_key(k) ==> k == f.path@ || old(self).spec_cache().contains_key(k),
            final(self).spec_cache().spec_size() <= old(self).spec_cache().spec_size() + 1,
            old(self).spec_cache().spec_size() < old(self).spec_cache().cap() ==> (forall|
                k: Seq<char>,
            |
                old(self).spec_cache().contains_key(k) ==> final(self).spec_cache().contains_key(
                    k,
                )),
            // a missed item with readable bytes has its transformed output
            // cached under its key
            f.content matches Ok(bytes) ==> (!old(self).spec_cache().contains_key(f.path@) ==> (
            final(self).spec_cache().contains_key(f.path@) && final(self).spec_cache().value_of(
                f.path@,
            )@ == gzip_of(bytes@, clamped_level(old(self).spec_config().compression_level))
                && final(self).spec_cache().model().len() > 0 && final(self).spec_cache().model().last().0 == f.path@)),
            // a missed item without readable bytes caches nothing at all
            !old(self).spec_cache().contains_key(f.path@) && f.content is Err ==> final(self).spec_cache().model() == old(self).spec_cache().model(),
            // a failed or cached item inserts nothing
            !(f.content is Ok && !old(self).spec_cache().contains_key(f.path@)) ==> final(self).spec_cache().spec_size() == old(self).spec_cache().spec_size(),
            // lookup accounting: this item made exactly one lookup
            old(self).spec_cache().counted() < u64::MAX ==> final(self).spec_cache().counted()
                == old(self).spec_cache().counted() + 1,
            old(self).spec_cache().counted() < u64::MAX && old(self).spec_cache().contains_key(
                f.path@,
            ) ==> final(self).spec_cache().spec_hits() == old(self).spec_cache().spec_hits() + 1,
            old(self).spec_cache().counted() < u64::MAX && !old(self).spec_cache().contains_key(
                f.path@,
            ) ==> final(self).spec_cache().spec_misses() == old(self).spec_cache().spec_misses()
                + 1,
    {
        let start = instant_now();
        let ghost pre = self.cache;
        match self.cache.get(&f.path) {
            Some(data) => {
                let out_len = data.len();
                proof {
                    let stored = pre.value_of(f.path@);
                    assert(cloned(stored, data));
                    if stored == data {
                    } else {
                        assert(data@.len() == stored@.len());
                    }
                }
                let t = elapsed_nanos(&start);
                ProcessResult {
                    file_path: f.path.clone(),
                    success: true,
                    processing_time: t,
                    output_size: out_len,
                    message: "Cache hit".to_string(),
                    compression_ratio: 0,
                }
            },
            None => {
                match &f.content {
                    Err(e) => {
                        let t = elapsed_nanos(&start);
                        ProcessResult {
                            file_path: f.path.clone(),
                            success: false,
                            processing_time: t,
                            output_size: 0,
                            message: e.clone(),
                            compression_ratio: 0,
                        }
                    },
                    Ok(bytes) => {
                        match self.process_file_content(bytes) {
                            Ok((out, ratio)) => {
                                let out_len = out.len();
                                self.cache.put(f.path.clone(), out);
                                let t = elapsed_nanos(&start);
                                ProcessResult {
                                    file_path: f.path.clone(),
                                    success: true,
                                    processing_time: t,
                                    output_size: out_len,
                                    message: "Processed successfully".to_string(),
                                    compression_ratio: ratio,
                                }
                            },
                            Err(e) => {
                                let t = elapsed_nanos(&start);
                                ProcessResult {
                                    file_path: f.path.clone(),
                                    success: false,
                                    processing_time: t,
                                    output_size: 0,
                                    message: e,
                                    compression_ratio: 0,
                                }
                            },
                        }
                    },
                }
            },
        }
    }

    /// Runs a whole batch: the items are processed in order, chunk by chunk
    /// of `batch_size`, each against the shared cache and the transform. One
    /// result comes back per item, in the order of the items, whatever mix
    /// of hits, successes and failures the batch held; fresh aggregate
    /// metrics for just this run come back alongside and are kept on the
    /// processor.
    pub fn process_files_parallel(&mut self, files: Vec<FileInput>) -> (r: (
        Vec<ProcessResult>,
        PerformanceMetrics,
    ))
        requires
            old(self).wf(),
        ensures
            final(self).wf(),
            final(self).spec_config() == old(self).spec_config(),
            // the cache never outgrows its configured capacity
            final(self).spec_cache().spec_size() <= final(self).spec_config().cache_size,
            // one result per item, in input order
            r.0@.len() == files@.len(),
            forall|i: int| 0 <= i < files@.len() ==> r.0@[i].file_path@ == files@[i].path@,
            // a success is a cache hit or a completed transform; a failure
            // produced no output
            forall|i: int|
                0 <= i < files@.len() && r.0@[i].success ==> r.0@[i].message@ == "Cache hit"@
                    || r.0@[i].message@ == "Processed successfully"@,
            forall|i: int| 0 <= i < files@.len() && !r.0@[i].success ==> r.0@[i].output_size == 0,
            // an item whose bytes failed to read, whose key was not cached
            // and which no earlier item shares a key with, fails and carries
            // the reading error; the batch goes on regardless
            forall|i: int|
                0 <= i < files@.len() && !old(self).spec_cache().contains_key(files@[i].path@)
                    && (forall|y: int| 0 <= y < i ==> files@[y].path@ != files@[i].path@) && files@[i].content is Err ==> read_failure_result(files@[i], r.0@[i]),
            // an uncached item with readable bytes, whose key no earlier
            // item shares, is transformed and succeeds
            forall|i: int|
                0 <= i < files@.len() && !old(self).spec_cache().contains_key(files@[i].path@)
                    && (forall|y: int| 0 <= y < i ==> files@[y].path@ != files@[i].path@) && files@[i].content is Ok ==> transform_success_result(
                    files@[i],
                    old(self).spec_config().compression_level,
                    r.0@[i],
                ),
            // with room for the whole batch, a key cached before the run is
            // still cached when it ends
            old(self).spec_cache().spec_size() + files@.len() <= old(self).spec_cache().cap()
                ==> (forall|k: Seq<char>|
                old(self).spec_cache().contains_key(k) ==> final(self).spec_cache().contains_key(
                    k,
                )),
            // a key cached before the run answers its item with a hit, as
            // long as the cache still had room when the item came up (the
            // only way a cached key can go before its item is reached is a
            // least-recently-used eviction by the items before it)
            forall|i: int|
                0 <= i < files@.len() && old(self).spec_cache().spec_size() + i <= old(self).spec_cache().cap() && old(self).spec_cache().contains_key(files@[i].path@)
                    ==> r.0@[i].success && r.0@[i].message@ == "Cache hit"@,
            // the run's metrics
            r.1.total_operations == files@.len(),
            r.1.successful_operations == count_successes(r.0@),
            r.1.failed_operations == files@.len() - count_successes(r.0@),
            r.1.cache_hits == final(self).spec_cache().spec_hits(),
            r.1.cache_misses == final(self).spec_cache().spec_misses(),
            r.1.average_processing_time == if files@.len() > 0 {
                (r.1.total_processing_time as int) / (files@.len() as int)
            } else {
                0int
            },
            r.1.memory_usage == 0,
            final(self).spec_metrics() == r.1,
    {
        let run_start = instant_now();
        let n = files.len();
        let mut results: Vec<ProcessResult> = Vec::new();
        let mut success_count: u64 = 0;
        let mut start: usize = 0;
        while start < n
            invariant
                self.wf(),
                self.spec_config() == old(self).spec_config(),
                self.spec_metrics() == old(self).spec_metrics(),
                self.spec_cache().cap() == old(self).spec_cache().cap(),
                n == files@.len(),
                start <= n,
                results@.len() == start,
                success_count <= start,
                success_count == count_successes(results@),
                forall|x: int| 0 <= x < start ==> results@[x].file_path@ == files@[x].path@,
                forall|x: int|
                    0 <= x < start && results@[x].success ==> results@[x].message@ == "Cache hit"@
                        || results@[x].message@ == "Processed successfully"@,
                forall|x: int| 0 <= x < start && !results@[x].success ==> results@[x].output_size == 0,
                forall|k: Seq<char>|
                    self.spec_cache().contains_key(k) ==> old(self).spec_cache().contains_key(k)
                        || (exists|y: int| 0 <= y < start && files@[y].path@ == k),
                self.spec_cache().spec_size() <= old(self).spec_cache().spec_size() + start,
                old(self).spec_cache().spec_size() + start <= old(self).spec_cache().cap()
                    ==> (forall|k: Seq<char>|
                    old(self).spec_cache().contains_key(k) ==> self.spec_cache().contains_key(k)),
                forall|x: int|
                    0 <= x < start && !old(self).spec_cache().contains_key(files@[x].path@) && (
                    forall|y: int| 0 <= y < x ==> files@[y].path@ != files@[x].path@) && files@[x].content is Err ==> read_failure_result(files@[x], results@[x]),
                forall|x: int|
                    0 <= x < start && !old(self).spec_cache().contains_key(files@[x].path@) && (
                    forall|y: int| 0 <= y < x ==> files@[y].path@ != files@[x].path@) && files@[x].content is Ok ==> transform_success_result(
                        files@[x],
                        old(self).spec_config().compression_level,
                        results@[x],
                    ),
                forall|x: int|
                    0 <= x < start && old(self).spec_cache().spec_size() + x <= old(self).spec_cache().cap() && old(self).spec_cache().contains_key(files@[x].path@)
                        ==> results@[x].success && results@[x].message@ == "Cache hit"@,
            decreases n - start,
        {
            let end = if n - start < self.config.batch_size {
                n
            } else {
                start + self.config.batch_size
            };
            let mut j = start;
            while j < end
                invariant
                    self.wf(),
                    self.spec_config() == old(self).spec_config(),
                    self.spec_metrics() == old(self).spec_metrics(),
                    self.spec_cache().cap() == old(self).spec_cache().cap(),
                    n == files@.len(),
                    j <= end <= n,
                    results@.len() == j,
                    success_count <= j,
                    success_count == count_successes(results@),
                    forall|x: int| 0 <= x < j ==> results@[x].file_path@ == files@[x].path@,
                forall|x: int|
                    0 <= x < j && results@[x].success ==> results@[x].message@ == "Cache hit"@
                        || results@[x].message@ == "Processed successfully"@,
                forall|x: int| 0 <= x < j && !results@[x].success ==> results@[x].output_size == 0,
                    forall|k: Seq<char>|
                        self.spec_cache().contains_key(k) ==> old(self).spec_cache().contains_key(
                            k,
                        ) || (exists|y: int| 0 <= y < j && files@[y].path@ == k),
                    self.spec_cache().spec_size() <= old(self).spec_cache().spec_size() + j,
                    old(self).spec_cache().spec_size() + j <= old(self).spec_cache().cap()
                        ==> (forall|k: Seq<char>|
                        old(self).spec_cache().contains_key(k) ==> self.spec_cache().contains_key(
                            k,
                        )),
                    forall|x: int|
                        0 <= x < j && !old(self).spec_cache().contains_key(files@[x].path@) && (
                        forall|y: int| 0 <= y < x ==> files@[y].path@ != files@[x].path@) && files@[x].content is Err ==> read_failure_result(files@[x], results@[x]),
                    forall|x: int|
                        0 <= x < j && !old(self).spec_cache().contains_key(files@[x].path@) && (
                        forall|y: int| 0 <= y < x ==> files@[y].path@ != files@[x].path@) && files@[x].content is Ok ==> transform_success_result(
                            files@[x],
                            old(self).spec_config().compression_level,
                            results@[x],
                        ),
                    forall|x: int|
                        0 <= x < j && old(self).spec_cache().spec_size() + x <= old(self).spec_cache().cap() && old(self).spec_cache().contains_key(files@[x].path@)
                            ==> results@[x].success && results@[x].message@ == "Cache hit"@,
                decreases end - j,
            {
                let ghost step_cache = self.spec_cache();
                let item_result = self.process_single_file(&files[j]);
                proof {
                    lemma_count_successes_push(results@, item_result);
                }
                if item_result.success {
                    success_count = success_count + 1;
                }
                results.push(item_result);
                j = j + 1;
            }
            start = end;
        }
        let total_nanos = elapsed_nanos(&run_start);
        let n64 = n as u64;
        let failed = n64 - success_count;
        let average = if n64 > 0 {
            total_nanos / n64
        } else {
            0
        };
        let (hits, total_lookups) = self.cache.hit_rate();
        let metrics = PerformanceMetrics {
            total_operations: n64,
            successful_operations: success_count,
            failed_operations: failed,
            total_processing_time: total_nanos,
            average_processing_time: average,
            memory_usage: 0,
            cache_hits: hits,
            cache_misses: total_lookups - hits,
        };
        self.metrics = metrics;
        (results, metrics)
    }
}

} // verus!
