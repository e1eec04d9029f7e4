use rzem_ai_inference::gallery::output_file_name;

#[test]
fn output_file_name_has_time_and_seed() {
    assert_eq!(output_file_name(1700000000, 42), "flux_1700000000_42.png");
    assert_eq!(output_file_name(0, -5), "flux_0_-5.png");
    assert_eq!(output_file_name(u64::MAX, i64::MIN), "flux_18446744073709551615_-9223372036854775808.png");
}
