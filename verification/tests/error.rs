use rig_cat::error::Error;

#[test]
fn provider_error_text() {
    let e = Error::Provider { status: 404, message: "not found".into() };
    assert_eq!(e.to_string(), "provider error (404): not found");
}

#[test]
fn config_error_text() {
    let e = Error::Config { field: "api_key".into() };
    assert_eq!(e.to_string(), "missing config: api_key");
}

#[test]
fn dimension_mismatch_error_text() {
    let e = Error::DimensionMismatch { expected: 1536, got: 0 };
    assert_eq!(e.to_string(), "dimension mismatch: expected 1536, got 0");
}

#[test]
fn wrapped_error_texts_keep_the_inner_text() {
    let h: Error = ureq::Error::StatusCode(500).into();
    let s = h.to_string();
    assert!(s.starts_with("HTTP error: "));
    assert!(s.len() > "HTTP error: ".len());
    let j: Error = serde_json::from_str::<serde_json::Value>("{").unwrap_err().into();
    let s = j.to_string();
    assert!(s.starts_with("JSON error: "));
    assert!(s.contains("EOF"));
    let i: Error = std::io::Error::new(std::io::ErrorKind::Other, "disk gone").into();
    assert_eq!(i.to_string(), "IO error: disk gone");
}
