use pdf_opticompress::batch::aggregate_batch;
use pdf_opticompress::pipeline::make_optimization_result;
use pdf_opticompress::utils::{calculate_compression_ratio, format_bytes, u64_to_string};

#[test]
fn failed_file_is_excluded_from_totals() {
    let results = vec![
        Some(make_optimization_result(1000, 500, 2, 10)),
        None,
        Some(make_optimization_result(1000, 900, 1, 20)),
    ];
    let totals = aggregate_batch(&results);
    assert_eq!(totals.total_original, 2000);
    assert_eq!(totals.total_optimized, 1400);
    assert_eq!(totals.total_images, 3);
    assert_eq!(totals.successful_files, 2);
    // (2000 - 1400) / 2000 * 100 = 30.0%, in tenths of a percent
    assert_eq!(totals.compression_ratio, 300);
}

#[test]
fn empty_batch_reports_zero() {
    let results: Vec<Option<pdf_opticompress::pipeline::OptimizationResult>> = vec![];
    let totals = aggregate_batch(&results);
    assert_eq!(totals.total_original, 0);
    assert_eq!(totals.total_optimized, 0);
    assert_eq!(totals.total_images, 0);
    assert_eq!(totals.successful_files, 0);
    assert_eq!(totals.compression_ratio, 0);
}

#[test]
fn all_failures_report_zero_totals() {
    let results: Vec<Option<pdf_opticompress::pipeline::OptimizationResult>> =
        vec![None, None, None];
    let totals = aggregate_batch(&results);
    assert_eq!(totals.successful_files, 0);
    assert_eq!(totals.total_original, 0);
    assert_eq!(totals.compression_ratio, 0);
}

#[test]
fn aggregate_ratio_comes_from_summed_bytes() {
    // per-file ratios are 90.0% and 0.0%; their average would be 45.0%,
    // but the aggregate must weigh by bytes: (1010-110)/1010 = 89.1%
    let results = vec![
        Some(make_optimization_result(1000, 100, 1, 1)),
        Some(make_optimization_result(10, 10, 0, 1)),
    ];
    let totals = aggregate_batch(&results);
    assert_eq!(totals.compression_ratio, 891);
}

#[test]
fn ratio_handles_zero_growth_and_shrink() {
    assert_eq!(calculate_compression_ratio(1000, 600), 400);
    assert_eq!(calculate_compression_ratio(0, 600), 0);
    assert_eq!(calculate_compression_ratio(100, 150), -500);
    assert_eq!(calculate_compression_ratio(3, 1), 666);
    assert_eq!(calculate_compression_ratio(5, 5), 0);
}

#[test]
fn decimal_rendering_is_exact() {
    assert_eq!(u64_to_string(0), "0");
    assert_eq!(u64_to_string(7), "7");
    assert_eq!(u64_to_string(1234567890), "1234567890");
    assert_eq!(u64_to_string(u64::MAX), "18446744073709551615");
}

#[test]
fn bytes_below_a_kilobyte_print_plain() {
    assert_eq!(format_bytes(0), "0 B");
    assert_eq!(format_bytes(512), "512 B");
    assert_eq!(format_bytes(1023), "1023 B");
}

#[test]
fn larger_sizes_print_one_decimal_place() {
    assert_eq!(format_bytes(1024), "1.0 KB");
    assert_eq!(format_bytes(1536), "1.5 KB");
    assert_eq!(format_bytes(1048576), "1.0 MB");
    assert_eq!(format_bytes(1073741824), "1.0 GB");
    assert_eq!(format_bytes(1099511627776), "1.0 TB");
    assert_eq!(format_bytes(1023 * 1024), "1023.0 KB");
}

#[test]
fn rounding_carries_into_the_whole_part() {
    // 1023 KB + 1000 B rounds up to 1024.0 KB
    assert_eq!(format_bytes(1023 * 1024 + 1000), "1024.0 KB");
}

#[test]
fn exact_half_tenth_ties_round_to_even() {
    // 1280 / 1024 = 1.25 exactly: the tie goes down to the even digit
    assert_eq!(format_bytes(1280), "1.2 KB");
    // 1792 / 1024 = 1.75 exactly: the tie goes up to the even digit
    assert_eq!(format_bytes(1792), "1.8 KB");
    // just past the tie rounds up as usual
    assert_eq!(format_bytes(1281), "1.3 KB");
}
