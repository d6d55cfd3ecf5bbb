//! Counters collected while a transfer runs.
use std::time::Duration;

use vstd::prelude::*;
use vstd::set_lib::set_int_range;
use vstd::string::*;

use crate::coverage::{saturate, RangeCoverage};
use crate::delay::duration_nanos;
use crate::report::{
    next_count, ByteRatio, ErrorCodeCounts, ObjectReport, OperationStatus, PutDiagnostics,
    SourceDiagnostics,
};
use crate::source_plan::{range_len, SourcePlan, SourceRange};

verus! {

/// The sum of two counts, modulo the size of `u64`.
pub open spec fn wrapped_sum(a: u64, b: u64) -> u64 {
    if a + b > u64::MAX {
        (a + b - u64::MAX - 1) as u64
    } else {
        (a + b) as u64
    }
}

/// Source scheduler and ranged `GetObject` counters. They wrap around.
#[derive(Clone, Copy, Debug, PartialEq, Eq, Structural)]
pub struct SourceCounters {
    pub planned_entries: u64,
    pub planned_blocks: u64,
    pub fetched_blocks: u64,
    pub source_get_attempts: u64,
    pub source_get_retries: u64,
    pub source_get_request_errors: u64,
    pub source_get_body_errors: u64,
    pub source_get_short_body_errors: u64,
    pub source_get_errors: u64,
    pub planned_source_bytes: u64,
    pub fetched_source_bytes: u64,
    pub block_hits: u64,
    pub block_waits: u64,
    pub block_releases: u64,
    pub block_misses: u64,
    pub block_refetches: u64,
    pub active_gets: u64,
    pub active_gets_high_water: u64,
}

/// Counters of nothing.
pub open spec fn no_counts() -> SourceCounters {
    SourceCounters {
        planned_entries: 0,
        planned_blocks: 0,
        fetched_blocks: 0,
        source_get_attempts: 0,
        source_get_retries: 0,
        source_get_request_errors: 0,
        source_get_body_errors: 0,
        source_get_short_body_errors: 0,
        source_get_errors: 0,
        planned_source_bytes: 0,
        fetched_source_bytes: 0,
        block_hits: 0,
        block_waits: 0,
        block_releases: 0,
        block_misses: 0,
        block_refetches: 0,
        active_gets: 0,
        active_gets_high_water: 0,
    }
}

/// Collects what happens at the source of a transfer.
#[derive(Debug)]
pub struct SourceDiagnosticsCollector {
    pub source_zip_bytes: u64,
    pub counters: SourceCounters,
    pub fetched_coverage: RangeCoverage,
}

/// The sum of the first `n` block lengths, modulo the size of `u64`.
pub open spec fn block_bytes(blocks: Seq<SourceRange>, n: int) -> u64
    decreases n,
{
    if n <= 0 {
        0
    } else {
        wrapped_sum(block_bytes(blocks, n - 1), blocks[n - 1].len())
    }
}

/// A collector with other counters.
pub open spec fn with_counters(
    collector: SourceDiagnosticsCollector,
    counters: SourceCounters,
) -> SourceDiagnosticsCollector {
    SourceDiagnosticsCollector { counters, ..collector }
}

/// The ratio of fetched to distinct bytes; zero where nothing was fetched.
pub open spec fn amplification(fetched: u64, unique: u64) -> ByteRatio {
    if unique == 0 {
        ByteRatio { numerator: 0, denominator: 1 }
    } else {
        ByteRatio { numerator: fetched, denominator: unique }
    }
}

/// What a collector reports, given the number of distinct fetched bytes.
pub open spec fn source_snapshot(
    collector: SourceDiagnosticsCollector,
    unique: u64,
) -> SourceDiagnostics {
    SourceDiagnostics {
        source_zip_bytes: collector.source_zip_bytes,
        planned_entries: collector.counters.planned_entries,
        planned_blocks: collector.counters.planned_blocks,
        fetched_blocks: collector.counters.fetched_blocks,
        source_get_attempts: collector.counters.source_get_attempts,
        source_get_retries: collector.counters.source_get_retries,
        source_get_request_errors: collector.counters.source_get_request_errors,
        source_get_body_errors: collector.counters.source_get_body_errors,
        source_get_short_body_errors: collector.counters.source_get_short_body_errors,
        source_get_errors: collector.counters.source_get_errors,
        planned_source_bytes: collector.counters.planned_source_bytes,
        fetched_source_bytes: collector.counters.fetched_source_bytes,
        unique_source_bytes: unique,
        source_amplification: amplification(collector.counters.fetched_source_bytes, unique),
        block_hits: collector.counters.block_hits,
        block_waits: collector.counters.block_waits,
        block_releases: collector.counters.block_releases,
        block_misses: collector.counters.block_misses,
        block_refetches: collector.counters.block_refetches,
        active_gets_high_water: collector.counters.active_gets_high_water,
    }
}

impl SourceDiagnosticsCollector {
    /// The coverage of fetched ranges is well formed.
    pub open spec fn wf(&self) -> bool {
        self.fetched_coverage.wf()
    }

    pub fn new(source_zip_bytes: u64) -> (collector: SourceDiagnosticsCollector)
        ensures
            collector.wf(),
            collector.source_zip_bytes == source_zip_bytes,
            collector.counters == no_counts(),
            collector.fetched_coverage@ == Set::<int>::empty(),
    {
        SourceDiagnosticsCollector {
            source_zip_bytes,
            counters: SourceCounters {
                planned_entries: 0,
                planned_blocks: 0,
                fetched_blocks: 0,
                source_get_attempts: 0,
                source_get_retries: 0,
                source_get_request_errors: 0,
                source_get_body_errors: 0,
                source_get_short_body_errors: 0,
                source_get_errors: 0,
                planned_source_bytes: 0,
                fetched_source_bytes: 0,
                block_hits: 0,
                block_waits: 0,
                block_releases: 0,
                block_misses: 0,
                block_refetches: 0,
                active_gets: 0,
                active_gets_high_water: 0,
            },
            fetched_coverage: RangeCoverage::default(),
        }
    }

    /// Counts the entries, blocks and bytes of a plan.
    pub fn record_plan(&mut self, plan: &SourcePlan)
        ensures
            *final(self) == with_counters(
                *old(self),
                SourceCounters {
                    planned_entries: wrapped_sum(
                        old(self).counters.planned_entries,
                        plan.planned_entries as u64,
                    ),
                    planned_blocks: wrapped_sum(
                        old(self).counters.planned_blocks,
                        plan.blocks@.len() as u64,
                    ),
                    planned_source_bytes: wrapped_sum(
                        old(self).counters.planned_source_bytes,
                        block_bytes(plan.blocks@, plan.blocks@.len() as int),
                    ),
                    ..old(self).counters
                },
            ),
    {
        let mut bytes: u64 = 0;
        let mut i: usize = 0;
        while i < plan.blocks.len()
            invariant
                i <= plan.blocks.len(),
                bytes == block_bytes(plan.blocks@, i as int),
            decreases plan.blocks.len() - i,
        {
            bytes = bytes.wrapping_add(plan.blocks[i].len());
            i += 1;
        }
        self.counters.planned_entries =
        self.counters.planned_entries.wrapping_add(plan.planned_entries as u64);
        self.counters.planned_blocks =
        self.counters.planned_blocks.wrapping_add(plan.blocks.len() as u64);
        self.counters.planned_source_bytes = self.counters.planned_source_bytes.wrapping_add(bytes);
    }

    /// Counts an attempt to fetch a range; attempts after the first are retries.
    pub fn record_get_attempt(&mut self, _start: u64, _end: u64, attempt: usize)
        ensures
            *final(self) == with_counters(
                *old(self),
                SourceCounters {
                    source_get_attempts: next_count(old(self).counters.source_get_attempts),
                    source_get_retries: if attempt > 1 {
                        next_count(old(self).counters.source_get_retries)
                    } else {
                        old(self).counters.source_get_retries
                    },
                    ..old(self).counters
                },
            ),
    {
        self.counters.source_get_attempts = self.counters.source_get_attempts.wrapping_add(1);
        if attempt > 1 {
            self.counters.source_get_retries = self.counters.source_get_retries.wrapping_add(1);
        }
    }

    /// Counts a fetched range.
    pub fn record_get_success(&mut self, start: u64, end: u64)
        requires
            old(self).wf(),
        ensures
            final(self).wf(),
            final(self).source_zip_bytes == old(self).source_zip_bytes,
            final(self).counters == (SourceCounters {
                fetched_source_bytes: wrapped_sum(
                    old(self).counters.fetched_source_bytes,
                    range_len(start, end),
                ),
                ..old(self).counters
            }),
            final(self).fetched_coverage@ == old(self).fetched_coverage@.union(
                set_int_range(start as int, end + 1),
            ),
    {
        let len: u64 = end.saturating_sub(start).saturating_add(1);
        self.counters.fetched_source_bytes = self.counters.fetched_source_bytes.wrapping_add(len);
        self.fetched_coverage.insert(start, end);
    }

    /// Counts a failed request.
    pub fn record_get_request_error(&mut self)
        ensures
            *final(self) == with_counters(
                *old(self),
                SourceCounters {
                    source_get_request_errors: next_count(old(self).counters.source_get_request_errors),
                    ..old(self).counters
                },
            ),
    {
        self.counters.source_get_request_errors = self.counters.source_get_request_errors.wrapping_add(1);
    }

    /// Counts a response body that could not be read.
    pub fn record_get_body_error(&mut self)
        ensures
            *final(self) == with_counters(
                *old(self),
                SourceCounters {
                    source_get_body_errors: next_count(old(self).counters.source_get_body_errors),
                    ..old(self).counters
                },
            ),
    {
        self.counters.source_get_body_errors = self.counters.source_get_body_errors.wrapping_add(1);
    }

    /// Counts a response body of the wrong length.
    pub fn record_get_short_body_error(&mut self)
        ensures
            *final(self) == with_counters(
                *old(self),
                SourceCounters {
                    source_get_short_body_errors: next_count(old(self).counters.source_get_short_body_errors),
                    ..old(self).counters
                },
            ),
    {
        self.counters.source_get_short_body_errors = self.counters.source_get_short_body_errors.wrapping_add(1);
    }

    /// Counts a fetch that failed after all attempts.
    pub fn record_get_error(&mut self)
        ensures
            *final(self) == with_counters(
                *old(self),
                SourceCounters {
                    source_get_errors: next_count(old(self).counters.source_get_errors),
                    ..old(self).counters
                },
            ),
    {
        self.counters.source_get_errors = self.counters.source_get_errors.wrapping_add(1);
    }

    /// Counts a fetched block.
    pub fn record_block_fetched(&mut self)
        ensures
            *final(self) == with_counters(
                *old(self),
                SourceCounters {
                    fetched_blocks: next_count(old(self).counters.fetched_blocks),
                    ..old(self).counters
                },
            ),
    {
        self.counters.fetched_blocks = self.counters.fetched_blocks.wrapping_add(1);
    }

    /// Counts a read from a ready block.
    pub fn record_block_hit(&mut self)
        ensures
            *final(self) == with_counters(
                *old(self),
                SourceCounters {
                    block_hits: next_count(old(self).counters.block_hits),
                    ..old(self).counters
                },
            ),
    {
        self.counters.block_hits = self.counters.block_hits.wrapping_add(1);
    }

    /// Counts a read that has to wait.
    pub fn record_block_wait(&mut self)
        ensures
            *final(self) == with_counters(
                *old(self),
                SourceCounters {
                    block_waits: next_count(old(self).counters.block_waits),
                    ..old(self).counters
                },
            ),
    {
        self.counters.block_waits = self.counters.block_waits.wrapping_add(1);
    }

    /// Counts a released block.
    pub fn record_block_release(&mut self)
        ensures
            *final(self) == with_counters(
                *old(self),
                SourceCounters {
                    block_releases: next_count(old(self).counters.block_releases),
                    ..old(self).counters
                },
            ),
    {
        self.counters.block_releases = self.counters.block_releases.wrapping_add(1);
    }

    /// Counts a block that is fetched again.
    pub fn record_block_refetch(&mut self)
        ensures
            *final(self) == with_counters(
                *old(self),
                SourceCounters {
                    block_refetches: next_count(old(self).counters.block_refetches),
                    ..old(self).counters
                },
            ),
    {
        self.counters.block_refetches = self.counters.block_refetches.wrapping_add(1);
    }

    /// Counts a request that starts, and the highest number of them at once.
    pub fn enter_get(&mut self)
        ensures
            *final(self) == with_counters(
                *old(self),
                SourceCounters {
                    active_gets: next_count(old(self).counters.active_gets),
                    active_gets_high_water: high_water(
                        old(self).counters.active_gets_high_water,
                        next_count(old(self).counters.active_gets),
                    ),
                    ..old(self).counters
                },
            ),
    {
        self.counters.active_gets = self.counters.active_gets.wrapping_add(1);
        self.counters.active_gets_high_water = update_high_water(
            self.counters.active_gets_high_water,
            self.counters.active_gets,
        );
    }

    /// Counts a request that ends.
    pub fn leave_get(&mut self)
        ensures
            *final(self) == with_counters(
                *old(self),
                SourceCounters {
                    active_gets: if old(self).counters.active_gets == 0 {
                        u64::MAX
                    } else {
                        (old(self).counters.active_gets - 1) as u64
                    },
                    ..old(self).counters
                },
            ),
    {
        self.counters.active_gets = self.counters.active_gets.wrapping_sub(1);
    }

    /// The number of requests under way.
    pub fn active_gets(&self) -> (active: u64)
        ensures
            active == self.counters.active_gets,
    {
        self.counters.active_gets
    }

    /// The counters so far.
    pub fn snapshot(&self) -> (report: SourceDiagnostics)
        requires
            self.wf(),
        ensures
            self.fetched_coverage@.finite(),
            report == source_snapshot(
                *self,
                saturate(self.fetched_coverage@.len() as int),
            ),
    {
        let unique: u64 = self.fetched_coverage.unique_bytes();
        let fetched: u64 = self.counters.fetched_source_bytes;
        let ratio = if unique == 0 {
            ByteRatio { numerator: 0, denominator: 1 }
        } else {
            ByteRatio { numerator: fetched, denominator: unique }
        };
        SourceDiagnostics {
            source_zip_bytes: self.source_zip_bytes,
            planned_entries: self.counters.planned_entries,
            planned_blocks: self.counters.planned_blocks,
            fetched_blocks: self.counters.fetched_blocks,
            source_get_attempts: self.counters.source_get_attempts,
            source_get_retries: self.counters.source_get_retries,
            source_get_request_errors: self.counters.source_get_request_errors,
            source_get_body_errors: self.counters.source_get_body_errors,
            source_get_short_body_errors: self.counters.source_get_short_body_errors,
            source_get_errors: self.counters.source_get_errors,
            planned_source_bytes: self.counters.planned_source_bytes,
            fetched_source_bytes: fetched,
            unique_source_bytes: unique,
            source_amplification: ratio,
            block_hits: self.counters.block_hits,
            block_waits: self.counters.block_waits,
            block_releases: self.counters.block_releases,
            block_misses: self.counters.block_misses,
            block_refetches: self.counters.block_refetches,
            active_gets_high_water: self.counters.active_gets_high_water,
        }
    }
}

/// The larger of the highest count so far and a new one.
pub open spec fn high_water(value: u64, candidate: u64) -> u64 {
    if candidate > value {
        candidate
    } else {
        value
    }
}

fn update_high_water(value: u64, candidate: u64) -> (updated: u64)
    ensures
        updated == high_water(value, candidate),
{
    if candidate > value {
        candidate
    } else {
        value
    }
}

/// Collects what happens at the destination of a transfer. Counters wrap around.
#[derive(Debug)]
pub struct PutDiagnosticsCollector {
    pub failed_attempts: u64,
    pub retry_attempts: u64,
    pub throttled_attempts: u64,
    pub throttle_waits: u64,
    pub throttle_wait_millis: u64,
    pub failures_by_error_code: ErrorCodeCounts,
}

/// The milliseconds of a wait, modulo the size of `u64`.
pub open spec fn wait_millis(duration: Duration) -> u64 {
    (duration_nanos(duration) / 1_000_000 % 0x1_0000_0000_0000_0000) as u64
}

impl Default for PutDiagnosticsCollector {
    fn default() -> (collector: PutDiagnosticsCollector)
        ensures
            collector.wf(),
            collector.failed_attempts == 0,
            collector.retry_attempts == 0,
            collector.throttled_attempts == 0,
            collector.throttle_waits == 0,
            collector.throttle_wait_millis == 0,
            collector.failures_by_error_code@ == Map::<Seq<char>, u64>::empty(),
    {
        PutDiagnosticsCollector {
            failed_attempts: 0,
            retry_attempts: 0,
            throttled_attempts: 0,
            throttle_waits: 0,
            throttle_wait_millis: 0,
            failures_by_error_code: ErrorCodeCounts::new(),
        }
    }
}

impl PutDiagnosticsCollector {
    pub open spec fn wf(&self) -> bool {
        self.failures_by_error_code.wf()
    }

    /// Counts a failed attempt under its error code, and returns how many failed.
    pub fn record_failure(&mut self, error_code: &str) -> (count: u64)
        requires
            old(self).wf(),
        ensures
            final(self).wf(),
            count == next_count(old(self).failed_attempts),
            final(self).failed_attempts == count,
            final(self).failures_by_error_code@ == old(self).failures_by_error_code@.insert(
                error_code@,
                if old(self).failures_by_error_code@.contains_key(error_code@) {
                    next_count(old(self).failures_by_error_code@[error_code@])
                } else {
                    1
                },
            ),
            *final(self) == (PutDiagnosticsCollector {
                failed_attempts: count,
                failures_by_error_code: final(self).failures_by_error_code,
                ..*old(self)
            }),
    {
        self.failed_attempts = self.failed_attempts.wrapping_add(1);
        self.failures_by_error_code.record(error_code);
        self.failed_attempts
    }

    /// Counts a retry.
    pub fn record_retry(&mut self)
        ensures
            *final(self) == (PutDiagnosticsCollector {
                retry_attempts: next_count(old(self).retry_attempts),
                ..*old(self)
            }),
    {
        self.retry_attempts = self.retry_attempts.wrapping_add(1);
    }

    /// Counts an attempt that was throttled.
    pub fn record_throttled_attempt(&mut self)
        ensures
            *final(self) == (PutDiagnosticsCollector {
                throttled_attempts: next_count(old(self).throttled_attempts),
                ..*old(self)
            }),
    {
        self.throttled_attempts = self.throttled_attempts.wrapping_add(1);
    }

    /// Counts a wait on the shared throttle.
    #[verifier::truncate]
    pub fn record_throttle_wait(&mut self, duration: Duration)
        ensures
            *final(self) == (PutDiagnosticsCollector {
                throttle_waits: next_count(old(self).throttle_waits),
                throttle_wait_millis: wrapped_sum(
                    old(self).throttle_wait_millis,
                    wait_millis(duration),
                ),
                ..*old(self)
            }),
    {
        let millis: u128 = duration.as_nanos() / 1_000_000;
        let kept: u64 = (millis % 0x1_0000_0000_0000_0000) as u64;
        self.throttle_waits = self.throttle_waits.wrapping_add(1);
        self.throttle_wait_millis = self.throttle_wait_millis.wrapping_add(kept);
    }

    /// The counters so far.
    pub fn snapshot(&self) -> (report: PutDiagnostics)
        requires
            self.wf(),
        ensures
            report.failed_attempts == self.failed_attempts,
            report.failures_by_error_code.wf(),
            report.failures_by_error_code@ == self.failures_by_error_code@,
            report.retry_attempts == self.retry_attempts,
            report.throttled_attempts == self.throttled_attempts,
            report.throttle_waits == self.throttle_waits,
            report.throttle_wait_millis == self.throttle_wait_millis,
    {
        PutDiagnostics {
            failed_attempts: self.failed_attempts,
            failures_by_error_code: self.failures_by_error_code.clone(),
            retry_attempts: self.retry_attempts,
            throttled_attempts: self.throttled_attempts,
            throttle_waits: self.throttle_waits,
            throttle_wait_millis: self.throttle_wait_millis,
        }
    }
}

/// How far an extraction has come. Counters wrap around.
#[derive(Clone, Copy, Debug, PartialEq, Eq, Structural)]
pub struct ExtractProgress {
    pub total_entries: usize,
    pub processed_entries: u64,
    pub uploaded_new: u64,
    pub uploaded_changed: u64,
    pub skipped_unchanged: u64,
    pub conditional_conflicts: u64,
    pub errors: u64,
}

/// Progress with one more operation of a status. Deleted objects are not entries.
pub open spec fn progressed(progress: ExtractProgress, status: OperationStatus) -> ExtractProgress {
    let moved = ExtractProgress {
        processed_entries: next_count(progress.processed_entries),
        ..progress
    };
    match status {
        OperationStatus::UploadedNew => ExtractProgress {
            uploaded_new: next_count(progress.uploaded_new),
            ..moved
        },
        OperationStatus::UploadedChanged => ExtractProgress {
            uploaded_changed: next_count(progress.uploaded_changed),
            ..moved
        },
        OperationStatus::SkippedUnchanged => ExtractProgress {
            skipped_unchanged: next_count(progress.skipped_unchanged),
            ..moved
        },
        OperationStatus::ConditionalConflict => ExtractProgress {
            conditional_conflicts: next_count(progress.conditional_conflicts),
            ..moved
        },
        OperationStatus::DeletedExtra => moved,
        OperationStatus::Error => ExtractProgress { errors: next_count(progress.errors), ..moved },
    }
}

impl ExtractProgress {
    pub fn new(total_entries: usize) -> (progress: ExtractProgress)
        ensures
            progress == (ExtractProgress {
                total_entries,
                processed_entries: 0,
                uploaded_new: 0,
                uploaded_changed: 0,
                skipped_unchanged: 0,
                conditional_conflicts: 0,
                errors: 0,
            }),
    {
        ExtractProgress {
            total_entries,
            processed_entries: 0,
            uploaded_new: 0,
            uploaded_changed: 0,
            skipped_unchanged: 0,
            conditional_conflicts: 0,
            errors: 0,
        }
    }

    /// Counts a processed entry.
    pub fn record_operation(&mut self, operation: &ObjectReport)
        ensures
            *final(self) == progressed(*old(self), operation.status),
    {
        self.processed_entries = self.processed_entries.wrapping_add(1);
        match operation.status {
            OperationStatus::UploadedNew => {
                self.uploaded_new = self.uploaded_new.wrapping_add(1);
            },
            OperationStatus::UploadedChanged => {
                self.uploaded_changed = self.uploaded_changed.wrapping_add(1);
            },
            OperationStatus::SkippedUnchanged => {
                self.skipped_unchanged = self.skipped_unchanged.wrapping_add(1);
            },
            OperationStatus::ConditionalConflict => {
                self.conditional_conflicts = self.conditional_conflicts.wrapping_add(1);
            },
            OperationStatus::DeletedExtra => {},
            OperationStatus::Error => {
                self.errors = self.errors.wrapping_add(1);
            },
        }
    }
}

} // verus!
