use just_an_email::text::{
    format_file_size, format_token, get_upload_folder, i64_to_dec, str_eq, two_digit, u64_to_dec,
};

#[test]
fn decimal_rendering_is_exact() {
    assert_eq!(u64_to_dec(0), "0");
    assert_eq!(u64_to_dec(7), "7");
    assert_eq!(u64_to_dec(1234567890), "1234567890");
    assert_eq!(i64_to_dec(-42), "-42");
    assert_eq!(i64_to_dec(i64::MIN), "-9223372036854775808");
}

#[test]
fn token_form_pads_to_six() {
    assert_eq!(format_token(123456), "123456");
    assert_eq!(format_token(42), "000042");
    assert_eq!(format_token(0), "000000");
    assert_eq!(format_token(1234567), "1234567");
}

#[test]
fn file_sizes_read_as_humans_expect() {
    assert_eq!(format_file_size(0), "0 B");
    assert_eq!(format_file_size(512), "512 B");
    assert_eq!(format_file_size(1023), "1023 B");
    assert_eq!(format_file_size(1024), "1.00 KB");
    assert_eq!(format_file_size(1536), "1.50 KB");
    assert_eq!(format_file_size(1048576), "1.00 MB");
    assert_eq!(format_file_size(2621440), "2.50 MB");
    assert_eq!(format_file_size(1073741824), "1.00 GB");
    assert_eq!(format_file_size(-5), "-5 B");
}

#[test]
fn upload_folder_joins_root_and_session() {
    assert_eq!(get_upload_folder("abc", "uploads"), "uploads/abc");
}

#[test]
fn character_equality_is_exact() {
    assert!(str_eq("abc", "abc"));
    assert!(!str_eq("abc", "abd"));
    assert!(!str_eq("abc", "abcd"));
    assert!(str_eq("", ""));
}

#[test]
fn two_digit_pads_single_digits() {
    assert_eq!(two_digit(0), "00");
    assert_eq!(two_digit(9), "09");
    assert_eq!(two_digit(42), "42");
}
