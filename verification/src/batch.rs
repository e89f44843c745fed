//! Batch aggregation: totals over many per-file runs.  A failed file
//! contributes nothing; the aggregate ratio is recomputed from the
//! summed byte totals of the successes, never averaged per file.

use vstd::prelude::*;

use crate::pipeline::OptimizationResult;
use crate::utils::{calculate_compression_ratio, spec_compression_ratio_tenths};

verus! {

/// Sum of a weight over per-file outcomes; a `None` (failed file)
/// weighs nothing.
pub open spec fn spec_sum_outcomes(
    results: Seq<Option<OptimizationResult>>,
    f: spec_fn(OptimizationResult) -> int,
) -> int
    decreases results.len(),
{
    if results.len() == 0 {
        0
    } else {
        spec_sum_outcomes(results.drop_last(), f) + match results.last() {
            Some(res) => f(res),
            None => 0int,
        }
    }
}

/// Original file size as a weight.
pub open spec fn original_size_weight() -> spec_fn(OptimizationResult) -> int {
    |res: OptimizationResult| res.original_size as int
}

/// Optimized file size as a weight.
pub open spec fn optimized_size_weight() -> spec_fn(OptimizationResult) -> int {
    |res: OptimizationResult| res.optimized_size as int
}

/// Count of images optimized as a weight.
pub open spec fn images_weight() -> spec_fn(OptimizationResult) -> int {
    |res: OptimizationResult| res.images_optimized as int
}

/// One per successful file.
pub open spec fn success_weight() -> spec_fn(OptimizationResult) -> int {
    |res: OptimizationResult| 1int
}

/// Summed original bytes over the successes.
pub open spec fn spec_total_original(results: Seq<Option<OptimizationResult>>) -> int {
    spec_sum_outcomes(results, original_size_weight())
}

/// Summed optimized bytes over the successes.
pub open spec fn spec_total_optimized(results: Seq<Option<OptimizationResult>>) -> int {
    spec_sum_outcomes(results, optimized_size_weight())
}

/// Summed image counts over the successes.
pub open spec fn spec_total_images(results: Seq<Option<OptimizationResult>>) -> int {
    spec_sum_outcomes(results, images_weight())
}

/// Number of successes.
pub open spec fn spec_successful_files(results: Seq<Option<OptimizationResult>>) -> int {
    spec_sum_outcomes(results, success_weight())
}

/// Extending a prefix by one outcome adds its weight.
proof fn lemma_sum_outcomes_take_step(
    results: Seq<Option<OptimizationResult>>,
    f: spec_fn(OptimizationResult) -> int,
    i: int,
)
    requires
        0 <= i < results.len(),
    ensures
        spec_sum_outcomes(results.take(i + 1), f) == spec_sum_outcomes(results.take(i), f)
            + match results[i] {
            Some(res) => f(res),
            None => 0int,
        },
{
    assert(results.take(i + 1).drop_last() =~= results.take(i));
    assert(results.take(i + 1).last() == results[i]);
}

/// A sum of non-negative weights is non-negative.
proof fn lemma_sum_outcomes_nonneg(
    results: Seq<Option<OptimizationResult>>,
    f: spec_fn(OptimizationResult) -> int,
)
    requires
        forall|res: OptimizationResult| #[trigger] f(res) >= 0,
    ensures
        spec_sum_outcomes(results, f) >= 0,
    decreases results.len(),
{
    if results.len() > 0 {
        lemma_sum_outcomes_nonneg(results.drop_last(), f);
    }
}

/// With non-negative weights, a prefix sum never exceeds the whole.
proof fn lemma_sum_outcomes_take_le(
    results: Seq<Option<OptimizationResult>>,
    f: spec_fn(OptimizationResult) -> int,
    i: int,
)
    requires
        forall|res: OptimizationResult| #[trigger] f(res) >= 0,
        0 <= i <= results.len(),
    ensures
        spec_sum_outcomes(results.take(i), f) <= spec_sum_outcomes(results, f),
    decreases results.len() - i,
{
    if i == results.len() {
        assert(results.take(i) =~= results);
    } else {
        lemma_sum_outcomes_take_step(results, f, i);
        lemma_sum_outcomes_take_le(results, f, i + 1);
    }
}

/// Aggregate totals of one batch run.
#[derive(Debug, Clone, Copy, PartialEq, Eq, Structural)]
pub struct BatchTotals {
    pub total_original: u64,
    pub total_optimized: u64,
    pub total_images: usize,
    pub successful_files: usize,
    /// Aggregate space saved, in tenths of a percent of the summed
    /// original bytes of the successes.
    pub compression_ratio: i128,
}

/// Fold the per-file outcomes into batch totals.  A failed file
/// (`None`) is excluded from every total; the aggregate ratio comes
/// from the summed sizes.  The preconditions only keep the sums inside
/// the machine words.
pub fn aggregate_batch(results: &Vec<Option<OptimizationResult>>) -> (t: BatchTotals)
    requires
        spec_total_original(results@) <= u64::MAX,
        spec_total_optimized(results@) <= u64::MAX,
        spec_total_images(results@) <= usize::MAX,
    ensures
        t.total_original == spec_total_original(results@),
        t.total_optimized == spec_total_optimized(results@),
        t.total_images == spec_total_images(results@),
        t.successful_files == spec_successful_files(results@),
        t.compression_ratio == spec_compression_ratio_tenths(
            spec_total_original(results@),
            spec_total_optimized(results@),
        ),
{
    let ghost rs = results@;
    let n = results.len();
    let mut total_original: u64 = 0;
    let mut total_optimized: u64 = 0;
    let mut total_images: usize = 0;
    let mut successful_files: usize = 0;
    let mut i: usize = 0;
    while i < n
        invariant
            n == rs.len(),
            rs == results@,
            i <= n,
            total_original == spec_sum_outcomes(rs.take(i as int), original_size_weight()),
            total_optimized == spec_sum_outcomes(rs.take(i as int), optimized_size_weight()),
            total_images == spec_sum_outcomes(rs.take(i as int), images_weight()),
            successful_files == spec_sum_outcomes(rs.take(i as int), success_weight()),
            successful_files <= i,
            spec_total_original(rs) <= u64::MAX,
            spec_total_optimized(rs) <= u64::MAX,
            spec_total_images(rs) <= usize::MAX,
        decreases n - i,
    {
        proof {
            lemma_sum_outcomes_take_step(rs, original_size_weight(), i as int);
            lemma_sum_outcomes_take_step(rs, optimized_size_weight(), i as int);
            lemma_sum_outcomes_take_step(rs, images_weight(), i as int);
            lemma_sum_outcomes_take_step(rs, success_weight(), i as int);
            lemma_sum_outcomes_take_le(rs, original_size_weight(), i as int + 1);
            lemma_sum_outcomes_take_le(rs, optimized_size_weight(), i as int + 1);
            lemma_sum_outcomes_take_le(rs, images_weight(), i as int + 1);
            lemma_sum_outcomes_nonneg(rs.take(i as int), original_size_weight());
            lemma_sum_outcomes_nonneg(rs.take(i as int), optimized_size_weight());
            lemma_sum_outcomes_nonneg(rs.take(i as int), images_weight());
        }
        match &results[i] {
            Some(res) => {
                total_original += res.original_size;
                total_optimized += res.optimized_size;
                total_images += res.images_optimized;
                successful_files += 1;
            },
            None => {},
        }
        i += 1;
    }
    proof {
        assert(rs.take(n as int) =~= rs);
    }
    let compression_ratio = calculate_compression_ratio(total_original, total_optimized);
    BatchTotals { total_original, total_optimized, total_images, successful_files, compression_ratio }
}

} // verus!
