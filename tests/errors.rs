use md_to_pdf::{custom_err_with_cause, CustomError};

#[test]
fn error_with_cause_describes_chain() {
    let e = CustomError::with_cause("cannot read markdown file content", "not found".to_string());
    assert_eq!(e.message(), "cannot read markdown file content");
    assert_eq!(e.source(), Some("not found"));
    assert_eq!(
        e.describe(),
        "CustomError: cannot read markdown file content; caused by: not found"
    );
}

#[test]
fn boxed_error() {
    let e = custom_err_with_cause("outer", "inner".to_string());
    assert_eq!(e.describe(), "CustomError: outer; caused by: inner");
}
