use nekocode::processing::{user_data, validate_email, BorrowedData, ProcessError, SimpleProcessor};

#[test]
fn test_simple_processor() {
    let processor = SimpleProcessor::new("[", "]");
    let result = processor.process("test").unwrap();
    assert_eq!(result, "[test]");
}

#[test]
fn processor_rejects_empty_and_long_input() {
    let processor = SimpleProcessor::new("<", ">");
    assert_eq!(processor.process(""), Err(ProcessError::Validation));
    let long = "x".repeat(1000);
    assert_eq!(processor.process(&long), Err(ProcessError::Validation));
    let almost = "x".repeat(999);
    assert_eq!(processor.process(&almost).unwrap().len(), 1001);
}

#[test]
fn processor_batch_keeps_order() {
    let processor = SimpleProcessor::new(">>> ", " <<<");
    let items = vec!["a".to_string(), String::new(), "b".to_string()];
    let out = processor.batch_process(&items);
    assert_eq!(out.len(), 3);
    assert_eq!(out[0], Ok(">>> a <<<".to_string()));
    assert_eq!(out[1], Err(ProcessError::Validation));
    assert_eq!(out[2], Ok(">>> b <<<".to_string()));
}

#[test]
fn borrowed_data_metadata_replaces_keys() {
    let value = 42u32;
    let data = BorrowedData::new(&value)
        .with_metadata("k", "1")
        .with_metadata("j", "2")
        .with_metadata("k", "3");
    assert_eq!(*data.get_data(), 42);
    assert_eq!(data.metadata.len(), 2);
    assert_eq!(data.metadata[0], ("k".to_string(), "3".to_string()));
    assert_eq!(data.metadata[1], ("j".to_string(), "2".to_string()));
}

#[test]
fn email_shape() {
    assert!(validate_email("test@example.com"));
    assert!(!validate_email("test.example.com"));
    assert!(!validate_email("test@example"));
}

#[test]
fn user_data_by_id() {
    assert_eq!(user_data(0), Err(ProcessError::Validation));
    assert_eq!(user_data(7), Ok("User data for ID: 7".to_string()));
    assert_eq!(user_data(100), Ok("User data for ID: 100".to_string()));
    assert_eq!(user_data(101), Err(ProcessError::Unknown));
}
