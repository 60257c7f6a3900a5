use imageflow_ex::errors::JobError;
use imageflow_ex::registry::Registry;

#[test]
fn create_issues_distinct_handles() {
    let mut r = Registry::new();
    let h1 = r.create().unwrap();
    let h2 = r.create().unwrap();
    let h3 = r.create().unwrap();
    assert_ne!(h1, h2);
    assert_ne!(h1, h3);
    assert_ne!(h2, h3);
}

#[test]
fn handle_not_reused_after_destroy() {
    let mut r = Registry::new();
    let h1 = r.create().unwrap();
    assert_eq!(r.destroy(h1), Ok(()));
    let h2 = r.create().unwrap();
    assert_ne!(h1, h2);
    assert_eq!(r.destroy(h2), Ok(()));
    let h3 = r.create().unwrap();
    assert_ne!(h1, h3);
    assert_ne!(h2, h3);
}

#[test]
fn destroyed_handle_never_succeeds() {
    let mut r = Registry::new();
    let h = r.create().unwrap();
    assert_eq!(r.add_input_buffer(h, 0, b"abc"), Ok(()));
    assert_eq!(r.destroy(h), Ok(()));
    assert_eq!(r.add_input_buffer(h, 1, b"xyz"), Err(JobError::HandleNotFound));
    assert_eq!(
        r.add_input_file(h, 2, String::from("in.png")),
        Err(JobError::HandleNotFound)
    );
    assert_eq!(r.add_output_buffer(h, 3), Err(JobError::HandleNotFound));
    assert_eq!(r.get_output_buffer(h, 0), Err(JobError::HandleNotFound));
    assert_eq!(
        r.message(h, b"copy", b"{\"from\":0,\"to\":1}"),
        Err(JobError::HandleNotFound)
    );
    assert_eq!(r.destroy(h), Err(JobError::HandleNotFound));
}

#[test]
fn destroy_unknown_handle_fails() {
    let mut r = Registry::new();
    assert_eq!(r.destroy(42), Err(JobError::HandleNotFound));
}

#[test]
fn destroy_leaves_other_handles_untouched() {
    let mut r = Registry::new();
    let h1 = r.create().unwrap();
    let h2 = r.create().unwrap();
    assert_eq!(r.add_input_buffer(h2, 0, b"keep"), Ok(()));
    assert_eq!(r.add_output_buffer(h2, 1), Ok(()));
    assert_eq!(r.destroy(h1), Ok(()));
    // the other slot still has its attachments and stays fully usable
    assert_eq!(r.add_input_buffer(h2, 0, b"dup"), Err(JobError::DuplicateIoId));
    let resp = r.message(h2, b"copy", b"{\"from\":0,\"to\":1}");
    assert!(resp.is_ok());
    assert_eq!(r.get_output_buffer(h2, 1), Ok(b"keep".to_vec()));
}

#[test]
fn registry_starts_empty() {
    let mut r = Registry::new();
    assert_eq!(r.get_output_buffer(0, 0), Err(JobError::HandleNotFound));
    assert_eq!(r.destroy(0), Err(JobError::HandleNotFound));
}

#[test]
fn valid_exactly_between_create_and_destroy() {
    let mut r = Registry::new();
    assert!(!r.handle_is_valid(0));
    let h = r.create().unwrap();
    assert!(r.handle_is_valid(h));
    assert_eq!(r.destroy(h), Ok(()));
    assert!(!r.handle_is_valid(h));
    let h2 = r.create().unwrap();
    assert!(r.handle_is_valid(h2));
    assert!(!r.handle_is_valid(h));
}
