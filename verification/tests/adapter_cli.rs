use cortex_rmvm::adapter::{normalize_endpoint, RmvmAdapter};
use cortex_rmvm::cli::split_csv;

#[test]
fn endpoints_are_normalized_to_http() {
    assert_eq!(normalize_endpoint("grpc://127.0.0.1:50051"), "http://127.0.0.1:50051");
    assert_eq!(normalize_endpoint("http://host:1"), "http://host:1");
    assert_eq!(normalize_endpoint("https://host:1"), "https://host:1");
    assert_eq!(normalize_endpoint("host:1"), "http://host:1");
    assert_eq!(normalize_endpoint(""), "http://");
    let once = normalize_endpoint("grpc://x");
    assert_eq!(normalize_endpoint(&once), once);
}

#[test]
fn adapters_keep_the_normalized_endpoint() {
    let a = RmvmAdapter::new("grpc://127.0.0.1:50051");
    assert_eq!(a.endpoint(), "http://127.0.0.1:50051");
    assert_eq!(RmvmAdapter::new("localhost:9").endpoint(), "http://localhost:9");
}

#[test]
fn comma_lists_are_trimmed_and_blank_items_dropped() {
    assert_eq!(split_csv("a, b ,c"), vec!["a", "b", "c"]);
    assert_eq!(split_csv(" , a,,  ,b "), vec!["a", "b"]);
    assert!(split_csv("").is_empty());
    assert!(split_csv(",,,").is_empty());
    assert_eq!(split_csv("normative.preference"), vec!["normative.preference"]);
}
