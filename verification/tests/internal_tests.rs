use petshop_server::internal::XErr;
use petshop_server::jobs::Jobs;
use petshop_server::text::{i64_to_string, str_eq, str_eq_ignore_case, u64_to_string};

#[test]
fn jobs_select_test() {
    assert!(Jobs::select("example").is_ok());
    let err = Jobs::select("unknown").unwrap_err();
    assert!(matches!(&err, XErr::Jobs(_)));
    assert_eq!(err.message(), "job not found");
}

#[test]
fn xerr_constructors_test() {
    let config = XErr::config("bad value");
    assert!(matches!(&config, XErr::Config(_)));
    assert_eq!(config.message(), "bad value");

    let uri = XErr::internal_uri("/nope");
    assert!(matches!(&uri, XErr::InternalUri(_)));
    assert_eq!(uri.message(), "/nope");
}

#[test]
fn decimal_rendering_test() {
    assert_eq!(u64_to_string(0), "0");
    assert_eq!(u64_to_string(42), "42");
    assert_eq!(u64_to_string(u64::MAX), "18446744073709551615");
    assert_eq!(i64_to_string(0), "0");
    assert_eq!(i64_to_string(-1), "-1");
    assert_eq!(i64_to_string(i64::MAX), "9223372036854775807");
    assert_eq!(i64_to_string(i64::MIN), "-9223372036854775808");
}

#[test]
fn string_comparison_test() {
    assert!(str_eq("abc", "abc"));
    assert!(!str_eq("abc", "abd"));
    assert!(!str_eq("abc", "ab"));
    assert!(str_eq_ignore_case("X-CSRF-Match", "x-csrf-match"));
    assert!(!str_eq_ignore_case("x-csrf-match", "x-csrf-mutch"));
    // case folding is ASCII only
    assert!(!str_eq_ignore_case("\u{00e9}", "\u{00c9}"));
    assert!(str_eq_ignore_case("", ""));
}
