use silicube::decimal::decimal_string;
use silicube::isolate::MetaFile;
use silicube::types::Seconds;

fn text(millis: u64) -> String {
    Seconds::from_millis(millis).to_text()
}

fn millis(text: &str) -> Option<u64> {
    Seconds::parse(text).map(|s| s.as_millis())
}

#[test]
fn seconds_are_written_without_trailing_zeros() {
    assert_eq!(text(0), "0");
    assert_eq!(text(2000), "2");
    assert_eq!(text(500), "0.5");
    assert_eq!(text(2001), "2.001");
    assert_eq!(text(1230), "1.23");
    assert_eq!(text(42), "0.042");
    assert_eq!(text(60000), "60");
    assert_eq!(text(10), "0.01");
    assert_eq!(text(1), "0.001");
    assert_eq!(text(999), "0.999");
    assert_eq!(text(u64::MAX), "18446744073709551.615");
}

#[test]
fn seconds_agree_with_float_formatting() {
    for (ms, value) in [(2000u64, 2.0f64), (500, 0.5), (2001, 2.001), (30000, 30.0), (1230, 1.23)] {
        assert_eq!(text(ms), format!("{value}"));
    }
}

#[test]
fn seconds_are_read_as_decimals() {
    assert_eq!(millis("2.001"), Some(2001));
    assert_eq!(millis("1"), Some(1000));
    assert_eq!(millis("1.000"), Some(1000));
    assert_eq!(millis("0.042"), Some(42));
    assert_eq!(millis("0.5"), Some(500));
    assert_eq!(millis(".5"), Some(500));
    assert_eq!(millis("5."), Some(5000));
    assert_eq!(millis("+1.5"), Some(1500));
    assert_eq!(millis("007.25"), Some(7250));
    assert_eq!(millis("0.0429"), Some(42));
    assert_eq!(millis("0.99999999999999999999999999"), Some(999));
    assert_eq!(millis("18446744073709551.615"), Some(u64::MAX));
}

#[test]
fn unreadable_seconds() {
    for bad in [
        "", ".", "+", "+.", "-1", "-0.5", "1e3", "inf", "NaN", "1.2.3", " 1", "1 ", "1,5", "0x10",
        "18446744073709551.616", "18446744073709552", "99999999999999999999",
    ] {
        assert_eq!(millis(bad), None, "{bad:?} should not read as seconds");
    }
}

#[test]
fn seconds_read_back_what_was_written() {
    for ms in [0u64, 1, 10, 100, 999, 1000, 1001, 1010, 1100, 123456, u64::MAX] {
        assert_eq!(millis(&text(ms)), Some(ms));
    }
}

#[test]
fn numerals() {
    assert_eq!(decimal_string(0), "0");
    assert_eq!(decimal_string(9), "9");
    assert_eq!(decimal_string(10), "10");
    assert_eq!(decimal_string(262144), "262144");
    assert_eq!(decimal_string(u64::MAX), "18446744073709551615");
}

fn meta_with(value: &str) -> MetaFile {
    MetaFile::parse(&format!("n:{value}\n"))
}

#[test]
fn unsigned_values_of_a_report() {
    assert_eq!(meta_with("0").get_u64("n"), Some(0));
    assert_eq!(meta_with("+7").get_u64("n"), Some(7));
    assert_eq!(meta_with("007").get_u64("n"), Some(7));
    assert_eq!(meta_with("18446744073709551615").get_u64("n"), Some(u64::MAX));
    assert_eq!(meta_with("18446744073709551616").get_u64("n"), None);
    assert_eq!(meta_with("-0").get_u64("n"), None);
    assert_eq!(meta_with("").get_u64("n"), None);
    assert_eq!(meta_with("+").get_u64("n"), None);
    assert_eq!(meta_with("1.5").get_u64("n"), None);
    assert_eq!(meta_with("12a").get_u64("n"), None);
    assert_eq!(meta_with("1").get_u64("m"), None);
}

#[test]
fn signed_values_of_a_report() {
    assert_eq!(meta_with("0").get_i32("n"), Some(0));
    assert_eq!(meta_with("-0").get_i32("n"), Some(0));
    assert_eq!(meta_with("-5").get_i32("n"), Some(-5));
    assert_eq!(meta_with("+7").get_i32("n"), Some(7));
    assert_eq!(meta_with("2147483647").get_i32("n"), Some(i32::MAX));
    assert_eq!(meta_with("2147483648").get_i32("n"), None);
    assert_eq!(meta_with("-2147483648").get_i32("n"), Some(i32::MIN));
    assert_eq!(meta_with("-2147483649").get_i32("n"), None);
    assert_eq!(meta_with("-").get_i32("n"), None);
    assert_eq!(meta_with("--1").get_i32("n"), None);
    assert_eq!(meta_with("1 1").get_i32("n"), None);
}

#[test]
fn values_agree_with_the_standard_parsers() {
    for value in ["0", "+1", "-1", "0012", "4294967296", "-", "+", "", "9x", "２"] {
        assert_eq!(meta_with(value).get_u64("n"), value.parse::<u64>().ok(), "{value:?}");
        assert_eq!(meta_with(value).get_i32("n"), value.parse::<i32>().ok(), "{value:?}");
    }
}
