use openparlant::matching::regex_search;
use openparlant::text::{i64_to_decimal, strip_code_fences, take_chars, usize_to_decimal};

#[test]
fn code_fences_are_stripped() {
    assert_eq!(strip_code_fences("  ```json\n{\"a\": 1}\n```  "), "{\"a\": 1}");
    assert_eq!(strip_code_fences("```\n[1]\n```"), "[1]");
    assert_eq!(strip_code_fences("{\"plain\": true}"), "{\"plain\": true}");
    assert_eq!(strip_code_fences("``````json x ``````"), "json x");
    assert_eq!(strip_code_fences("   "), "");
}

#[test]
fn prefixes() {
    assert_eq!(take_chars("héllo", 2), "hé");
    assert_eq!(take_chars("hi", 5), "hi");
}

#[test]
fn decimal_text() {
    assert_eq!(usize_to_decimal(0), "0");
    assert_eq!(usize_to_decimal(1234), "1234");
    assert_eq!(i64_to_decimal(-42), "-42");
    assert_eq!(i64_to_decimal(i64::MIN), "-9223372036854775808");
}

#[test]
fn regex_search_reports_invalid_patterns() {
    assert_eq!(regex_search("a+b", "xaab"), Some(true));
    assert_eq!(regex_search("a+b", "xyz"), Some(false));
    assert_eq!(regex_search("(", "("), None);
}
