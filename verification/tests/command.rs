use size_converter::command::{bytes_from_args, report_line, CommandError};

fn args(list: &[&str]) -> Vec<String> {
    list.iter().map(|s| s.to_string()).collect()
}

fn report(bytes: u64) -> String {
    let scaled = bytes as f64;
    report_line(
        bytes,
        &(scaled / 1000.0).to_string(),
        &(scaled / 1_000_000.0).to_string(),
        &(scaled / 1_000_000_000.0).to_string(),
    )
}

#[test]
fn ten_kilobytes_end_to_end() {
    let bytes = bytes_from_args(&args(&["size", "10kb"]));
    assert_eq!(bytes, Ok(10000));
    assert_eq!(
        report(bytes.unwrap()),
        "Sizes { bytes: 10000 bytes, kilobytes: 10 kilobytes, megabytes: 0.01 megabytes, gigabytes: 0.00001 gigabytes }"
    );
}

#[test]
fn five_gigabytes_end_to_end() {
    let bytes = bytes_from_args(&args(&["size", "5gb"]));
    assert_eq!(bytes, Ok(5_000_000_000));
    assert_eq!(
        report(bytes.unwrap()),
        "Sizes { bytes: 5000000000 bytes, kilobytes: 5000000 kilobytes, megabytes: 5000 megabytes, gigabytes: 5 gigabytes }"
    );
}

#[test]
fn fifteen_hundred_bytes_are_one_and_a_half_kilobytes() {
    let bytes = bytes_from_args(&args(&["size", "1500zz"]));
    assert_eq!(bytes, Ok(1500));
    assert_eq!(
        report(bytes.unwrap()),
        "Sizes { bytes: 1500 bytes, kilobytes: 1.5 kilobytes, megabytes: 0.0015 megabytes, gigabytes: 0.0000015 gigabytes }"
    );
}

#[test]
fn two_digits_alone_are_a_format_error() {
    let outcome = bytes_from_args(&args(&["size", "42"]));
    assert_eq!(outcome, Err(CommandError::Format));
    assert_eq!(outcome.unwrap_err().exit_code(), 1);
}

#[test]
fn unreadable_magnitude_is_a_format_error() {
    for token in ["", "k", "kb", "tenkb", "1.5mb", "+1kb", "18446744073709551616gb"] {
        assert_eq!(bytes_from_args(&args(&["size", token])), Err(CommandError::Format));
    }
}

#[test]
fn no_token_is_a_usage_error() {
    let outcome = bytes_from_args(&args(&["size"]));
    assert_eq!(outcome, Err(CommandError::Usage));
    assert_eq!(outcome.unwrap_err().exit_code(), 1);
}

#[test]
fn several_tokens_are_a_usage_error() {
    assert_eq!(bytes_from_args(&args(&["size", "10kb", "5gb"])), Err(CommandError::Usage));
    assert_eq!(bytes_from_args(&args(&["size", "10", "kb"])), Err(CommandError::Usage));
    assert_eq!(bytes_from_args(&args(&["size", "a", "b", "c"])), Err(CommandError::Usage));
}

#[test]
fn empty_argument_list_is_a_usage_error() {
    assert_eq!(bytes_from_args(&[]), Err(CommandError::Usage));
}

#[test]
fn usage_error_comes_before_any_parsing() {
    assert_eq!(bytes_from_args(&args(&["size", "bad", "worse"])), Err(CommandError::Usage));
}

#[test]
fn wrapped_byte_count_is_reported() {
    assert_eq!(
        bytes_from_args(&args(&["size", "18446744073709551615kb"])),
        Ok(18_446_744_073_709_550_616)
    );
}

#[test]
fn padded_token_is_accepted() {
    assert_eq!(bytes_from_args(&args(&["size", " 10 kb"])), Ok(10000));
}

#[test]
fn usage_message_names_the_program() {
    assert_eq!(CommandError::Usage.message("size"), "Usage: size <file size in bytes>");
    assert_eq!(
        CommandError::Usage.message("./target/size"),
        "Usage: ./target/size <file size in bytes>"
    );
    assert_eq!(CommandError::Usage.message(""), "Usage:  <file size in bytes>");
}

#[test]
fn format_message_is_fixed() {
    let expected = "Invalid file size format. Use <number> <unit> format. Example: 10 kb";
    assert_eq!(CommandError::Format.message("size"), expected);
    assert_eq!(CommandError::Format.message(""), expected);
}

#[test]
fn both_errors_end_with_status_one() {
    assert_eq!(CommandError::Usage.exit_code(), 1);
    assert_eq!(CommandError::Format.exit_code(), 1);
}

#[test]
fn report_line_labels_four_figures() {
    assert_eq!(
        report_line(1, "a", "b", "c"),
        "Sizes { bytes: 1 bytes, kilobytes: a kilobytes, megabytes: b megabytes, gigabytes: c gigabytes }"
    );
    assert_eq!(
        report_line(u64::MAX, "", "", ""),
        "Sizes { bytes: 18446744073709551615 bytes, kilobytes:  kilobytes, megabytes:  megabytes, gigabytes:  gigabytes }"
    );
}

#[test]
fn report_line_is_the_same_every_time() {
    for bytes in [0u64, 1, 1500, 10000, 5_000_000_000, u64::MAX] {
        assert_eq!(report(bytes), report(bytes));
    }
}

#[test]
fn zero_bytes_report() {
    assert_eq!(
        report(0),
        "Sizes { bytes: 0 bytes, kilobytes: 0 kilobytes, megabytes: 0 megabytes, gigabytes: 0 gigabytes }"
    );
}
