use stdbuf::parse_size;

#[test]
fn bare_number() {
    assert_eq!(parse_size("512"), Some(512));
    assert_eq!(parse_size("0"), Some(0));
    assert_eq!(parse_size("007K"), Some(7 * 1024));
}

#[test]
fn unit_letters_scale_by_powers_of_1024() {
    assert_eq!(parse_size("1K"), Some(1024));
    assert_eq!(parse_size("2M"), Some(2 * 1024 * 1024));
    assert_eq!(parse_size("1G"), Some(1024u64.pow(3)));
    assert_eq!(parse_size("1T"), Some(1024u64.pow(4)));
    assert_eq!(parse_size("1P"), Some(1024u64.pow(5)));
    assert_eq!(parse_size("1E"), Some(1024u64.pow(6)));
    assert_eq!(parse_size("15E"), Some(15 * 1024u64.pow(6)));
}

#[test]
fn unit_letters_with_b_scale_by_powers_of_1000() {
    assert_eq!(parse_size("1KB"), Some(1000));
    assert_eq!(parse_size("64MB"), Some(64 * 1000 * 1000));
    assert_eq!(parse_size("1GB"), Some(1000u64.pow(3)));
    assert_eq!(parse_size("1TB"), Some(1000u64.pow(4)));
    assert_eq!(parse_size("1PB"), Some(1000u64.pow(5)));
    assert_eq!(parse_size("1EB"), Some(1000u64.pow(6)));
}

#[test]
fn scaled_overflow_is_rejected_not_wrapped() {
    assert_eq!(parse_size("18446744073709551615"), Some(u64::MAX));
    assert_eq!(parse_size("18446744073709551616"), None);
    assert_eq!(parse_size("16E"), None);
    assert_eq!(parse_size("1Z"), None);
    assert_eq!(parse_size("1Y"), None);
    assert_eq!(parse_size("1ZB"), None);
    assert_eq!(parse_size("1YB"), None);
    assert_eq!(parse_size("99999999999999999999K"), None);
}

#[test]
fn zero_survives_any_unit() {
    assert_eq!(parse_size("0Z"), Some(0));
    assert_eq!(parse_size("0Y"), Some(0));
    assert_eq!(parse_size("0YB"), Some(0));
}

#[test]
fn malformed_interleaving_is_rejected() {
    assert_eq!(parse_size("12x34y"), None);
    assert_eq!(parse_size("1 2K"), None);
    assert_eq!(parse_size("5K5"), None);
    assert_eq!(parse_size("+5K"), None);
}

#[test]
fn unrecognized_suffixes_are_rejected() {
    assert_eq!(parse_size("12kb"), None);
    assert_eq!(parse_size("5KBB"), None);
    assert_eq!(parse_size("5BK"), None);
    assert_eq!(parse_size("12Q"), None);
}

#[test]
fn tokens_without_digits_are_rejected() {
    assert_eq!(parse_size(""), None);
    assert_eq!(parse_size("K"), None);
    assert_eq!(parse_size("MB"), None);
}
