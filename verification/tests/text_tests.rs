use fplx::response::{failure, success};
use fplx::text::{text_contains, text_equals, text_strip_prefix};

#[test]
fn text_helpers() {
    assert!(text_equals("abc", "abc"));
    assert!(!text_equals("abc", "abd"));
    assert!(text_contains("a Public league limit b", "Public league limit"));
    assert!(!text_contains("Public", "Public league"));
    assert!(text_contains("", ""));
    assert_eq!(text_strip_prefix("héllo", "hé"), Some("llo".to_string()));
    assert_eq!(text_strip_prefix("hello", "x"), None);
}

#[test]
fn response_envelopes() {
    let ok = success("Points fetched", 5);
    assert!(ok.success);
    assert_eq!(ok.status_code, 200);
    assert_eq!(ok.message, "Points fetched");
    assert_eq!(ok.data, Some(5));
    let bad = failure("No team", 404);
    assert!(!bad.success);
    assert_eq!(bad.status_code, 404);
    assert_eq!(bad.message, "No team");
    assert!(bad.data.is_none());
}
