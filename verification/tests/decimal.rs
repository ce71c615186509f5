use triton_bridge::decimal::{parse_model_version, version_to_string};

#[test]
fn versions_are_read() {
    assert_eq!(parse_model_version("0"), 0);
    assert_eq!(parse_model_version("1"), 1);
    assert_eq!(parse_model_version("42"), 42);
    assert_eq!(parse_model_version("007"), 7);
    assert_eq!(parse_model_version("+5"), 5);
    assert_eq!(parse_model_version("-1"), -1);
    assert_eq!(parse_model_version("-0"), 0);
    assert_eq!(parse_model_version("-17"), -17);
}

#[test]
fn versions_at_the_limits_are_read() {
    assert_eq!(parse_model_version("9223372036854775807"), i64::MAX);
    assert_eq!(parse_model_version("-9223372036854775808"), i64::MIN);
    assert_eq!(parse_model_version("9223372036854775808"), -1);
    assert_eq!(parse_model_version("-9223372036854775809"), -1);
    assert_eq!(parse_model_version("92233720368547758070"), -1);
    assert_eq!(parse_model_version("00000000000000000000000000001"), 1);
}

#[test]
fn what_is_no_number_asks_for_the_latest() {
    for text in ["", "+", "-", "latest", "1.0", " 1", "1 ", "1_000", "0x10", "１２", "--1", "4a"] {
        assert_eq!(parse_model_version(text), -1, "{:?}", text);
    }
}

#[test]
fn versions_are_read_as_the_standard_library_reads_them() {
    for text in [
        "0", "12", "-12", "+12", "", "-", "+", "abc", "12a", "9223372036854775807",
        "9223372036854775808", "-9223372036854775808", "-9223372036854775809", "٣", "0012",
    ] {
        assert_eq!(parse_model_version(text), text.parse::<i64>().unwrap_or(-1), "{:?}", text);
    }
}

#[test]
fn versions_are_written() {
    assert_eq!(version_to_string(0), "0");
    assert_eq!(version_to_string(7), "7");
    assert_eq!(version_to_string(10), "10");
    assert_eq!(version_to_string(1234567890), "1234567890");
    assert_eq!(version_to_string(-1), "-1");
    assert_eq!(version_to_string(-120), "-120");
    assert_eq!(version_to_string(i64::MAX), "9223372036854775807");
    assert_eq!(version_to_string(i64::MIN), "-9223372036854775808");
}

#[test]
fn written_versions_are_read_back() {
    for version in [0, 1, -1, 9, 10, 99, 100, -100, 65535, i64::MAX, i64::MIN, i64::MIN + 1] {
        assert_eq!(version_to_string(version), version.to_string());
        assert_eq!(parse_model_version(&version_to_string(version)), version);
    }
}
