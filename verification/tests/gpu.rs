use rzem_ai_inference::inference::flux_pipeline::{
    gpu_memory_stats, needs_staged_loading, report_fits, reported_mib_of, GIB, MIB,
};
use rzem_ai_inference::numbers::parse_u64_text;

#[test]
fn gpu_report_gives_bytes() {
    assert_eq!(gpu_memory_stats("1234, 8192\n"), Some((1234 * 1048576, 8192 * 1048576)));
}

#[test]
fn gpu_report_uses_first_line_only() {
    assert_eq!(gpu_memory_stats("  7 ,  9  \r\n100, 200\n"), Some((7 * MIB, 9 * MIB)));
    assert_eq!(reported_mib_of("5,6,7"), Some((5, 6)));
}

#[test]
fn gpu_report_without_figures() {
    assert_eq!(gpu_memory_stats(""), None);
    assert_eq!(gpu_memory_stats("100"), None);
    assert_eq!(gpu_memory_stats("abc, 5"), None);
    assert_eq!(gpu_memory_stats("5, -1"), None);
    assert_eq!(gpu_memory_stats("\n5, 6"), None);
}

#[test]
fn gpu_report_too_large_for_bytes() {
    assert!(!report_fits("18446744073709551615, 1"));
    assert!(report_fits("17592186044415, 17592186044415"));
    assert!(!report_fits("17592186044416, 1"));
    assert!(report_fits("not a report"));
}

#[test]
fn parse_u64_as_std_does() {
    assert_eq!(parse_u64_text("+18446744073709551615"), Some(u64::MAX));
    assert_eq!(parse_u64_text("18446744073709551616"), None);
    assert_eq!(parse_u64_text("-1"), None);
    assert_eq!(parse_u64_text("0042"), Some(42));
    assert_eq!(parse_u64_text(""), None);
    assert_eq!(parse_u64_text("+"), None);
}

#[test]
fn staged_loading_only_for_dev_on_small_gpus() {
    assert!(needs_staged_loading("dev", Some(24 * GIB)));
    assert!(needs_staged_loading("dev", Some(34 * GIB - 1)));
    assert!(!needs_staged_loading("dev", Some(34 * GIB)));
    assert!(!needs_staged_loading("dev", Some(80 * GIB)));
    assert!(needs_staged_loading("dev", None));
    assert!(!needs_staged_loading("schnell", Some(8 * GIB)));
    assert!(!needs_staged_loading("schnell", None));
    assert!(!needs_staged_loading("Dev", None));
}
