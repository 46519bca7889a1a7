use affogato::text::{
    base_name, i64_text, parse_u64, path_extension, sort_names, str_contains_ci, str_eq_ci,
    str_lex_leq, str_path_under, u64_text,
};

fn strs(v: &[&str]) -> Vec<String> {
    v.iter().map(|s| s.to_string()).collect()
}

#[test]
fn decimal_rendering() {
    assert_eq!(u64_text(0), "0");
    assert_eq!(u64_text(7), "7");
    assert_eq!(u64_text(10), "10");
    assert_eq!(u64_text(12345), "12345");
    assert_eq!(u64_text(u64::MAX), "18446744073709551615");
    assert_eq!(i64_text(-3), "-3");
    assert_eq!(i64_text(42), "42");
    assert_eq!(i64_text(i64::MIN), "-9223372036854775808");
}

#[test]
fn decimal_reading() {
    assert_eq!(parse_u64("0"), Some(0));
    assert_eq!(parse_u64("18446744073709551615"), Some(u64::MAX));
    assert_eq!(parse_u64("18446744073709551616"), None);
    assert_eq!(parse_u64("184467440737095516150"), None);
    assert_eq!(parse_u64(""), None);
    assert_eq!(parse_u64("12a"), None);
    assert_eq!(parse_u64("007"), Some(7));
}

#[test]
fn case_insensitive_search() {
    assert!(str_contains_ci("All Checks PASSED", "pass"));
    assert!(str_contains_ci("fAiLuRe", "fail"));
    assert!(!str_contains_ci("flawless", "fail"));
    assert!(str_contains_ci("anything", ""));
    assert!(str_eq_ci("CMAKE", "cmake"));
    assert!(!str_eq_ci("cmake2", "cmake"));
}

#[test]
fn lexicographic_order() {
    assert!(str_lex_leq("a", "b"));
    assert!(str_lex_leq("a", "a"));
    assert!(str_lex_leq("a", "ab"));
    assert!(!str_lex_leq("ab", "a"));
    assert!(str_lex_leq("A", "a"));
    assert_eq!(sort_names(&strs(&["b", "a", "c", "a"])), strs(&["a", "a", "b", "c"]));
}

#[test]
fn path_parts() {
    assert_eq!(base_name("/p/fpga/rtl/top.v"), "top.v");
    assert_eq!(base_name("plain"), "plain");
    assert_eq!(base_name("/p/dir/"), "");
    assert_eq!(path_extension("/p/a/top.v").as_deref(), Some("v"));
    assert_eq!(path_extension("/p/a/archive.tar.gz").as_deref(), Some("gz"));
    assert_eq!(path_extension("/p/a/.hidden"), None);
    assert_eq!(path_extension("/p/a/noext"), None);
    assert_eq!(path_extension("/p/a/trailing.").as_deref(), Some(""));
}

#[test]
fn path_containment_respects_component_boundaries() {
    assert!(str_path_under("/p/fpga/rtl/top.v", "/p/fpga"));
    assert!(str_path_under("/p/fpga", "/p/fpga"));
    assert!(!str_path_under("/p/fpgax/top.v", "/p/fpga"));
    assert!(!str_path_under("/p", "/p/fpga"));
}
