use finsight_core::examples::{example_text, ExampleError};

#[test]
fn add_trims_and_rejects_empty_text() {
    assert_eq!(example_text("  TIM HORTONS  ", true).unwrap(), "TIM HORTONS");
    assert!(example_text("   ", true).is_err());
    assert!(example_text("", true).is_err());
    assert_eq!(example_text("", false), Err(ExampleError::EmptyText));
    assert_eq!(ExampleError::EmptyText.message(), "example text must not be empty");
}

#[test]
fn add_rejects_unknown_category() {
    assert_eq!(example_text("WHATEVER", false), Err(ExampleError::UnknownCategory));
    assert_eq!(ExampleError::UnknownCategory.message(), "category not found");
}

#[test]
fn add_is_idempotent_per_category_and_text() {
    // The untrimmed repeat is looked up under the same text.
    assert_eq!(
        example_text(" STARBUCKS #4021 ", true).unwrap(),
        example_text("STARBUCKS #4021", true).unwrap()
    );
}
