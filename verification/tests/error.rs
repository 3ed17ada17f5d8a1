use jex_core::error::Error;

#[test]
fn test_error_new() {
    let e = Error::new("test error");
    assert_eq!(e.0, "test error");
}

#[test]
fn test_error_display() {
    let e = Error::new("display test");
    assert_eq!(e.message(), "display test");
}

#[test]
fn test_error_debug() {
    let e = Error::new("debug test");
    assert!(format!("{:?}", e).contains("debug test"));
}

#[test]
fn test_error_with_string() {
    let msg = "owned string".to_string();
    let e = Error::new(msg);
    assert_eq!(e.0, "owned string");
}
