use vidgen_core::progress::parse_progress_line;
use vidgen_core::progress::ProgressValue;

fn as_f32(v: Option<ProgressValue>) -> Option<f32> {
    v.map(|p| {
        let magnitude = p.mantissa as f32 / 10f32.powi(p.scale as i32);
        if p.negative { -magnitude } else { magnitude }
    })
}

#[test]
fn parses_percentages() {
    assert_eq!(as_f32(parse_progress_line("Progress: 65%")), Some(65.0));
    assert_eq!(as_f32(parse_progress_line("65% complete")), Some(65.0));
    assert_eq!(as_f32(parse_progress_line("[45%]")), Some(45.0));
    assert_eq!(as_f32(parse_progress_line("No progress here")), None);
}

#[test]
fn no_percent_means_no_value() {
    assert_eq!(parse_progress_line(""), None);
    assert_eq!(parse_progress_line("rendering frame 12 of 480"), None);
    assert_eq!(parse_progress_line("loading model weights"), None);
    assert_eq!(parse_progress_line("100 done"), None);
}

#[test]
fn parses_fractional_percentages() {
    let v = parse_progress_line("Progress: 45.5%").unwrap();
    assert_eq!(v.mantissa, 455);
    assert_eq!(v.scale, 1);
    assert!(!v.negative);
    assert_eq!(as_f32(parse_progress_line("45.5%")), Some(45.5));
}

#[test]
fn parses_parenthesized_and_signed() {
    assert_eq!(as_f32(parse_progress_line("(30%)")), Some(30.0));
    assert_eq!(as_f32(parse_progress_line("+12% done")), Some(12.0));
    let v = parse_progress_line("-5%").unwrap();
    assert!(v.negative);
    assert_eq!(v.mantissa, 5);
}

#[test]
fn unparsable_token_is_plain_output() {
    assert_eq!(parse_progress_line("%"), None);
    assert_eq!(parse_progress_line("done%"), None);
    assert_eq!(parse_progress_line("Progress: 6a5%"), None);
    assert_eq!(parse_progress_line("Progress: .5%"), None);
    assert_eq!(parse_progress_line("Progress: 5.%"), None);
    assert_eq!(parse_progress_line("   %"), None);
}

#[test]
fn takes_last_token_before_first_percent() {
    assert_eq!(as_f32(parse_progress_line("step 3 of 10: 30% then 50%")), Some(30.0));
    assert_eq!(as_f32(parse_progress_line("65 %")), Some(65.0));
}

#[test]
fn values_beyond_hundred_are_not_clamped() {
    assert_eq!(as_f32(parse_progress_line("150% overdrive")), Some(150.0));
}

#[test]
fn overlong_digit_strings_are_not_numbers() {
    assert_eq!(parse_progress_line("1234567890123456789%"), None);
    let v = parse_progress_line("123456789012345678%").unwrap();
    assert_eq!(v.mantissa, 123456789012345678);
    assert_eq!(v.scale, 0);
}
