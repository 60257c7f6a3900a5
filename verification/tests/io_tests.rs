use imageflow_ex::errors::JobError;
use imageflow_ex::registry::Registry;

#[test]
fn duplicate_input_then_input_refused() {
    let mut r = Registry::new();
    let h = r.create().unwrap();
    assert_eq!(r.add_input_buffer(h, 7, b"one"), Ok(()));
    assert_eq!(r.add_input_buffer(h, 7, b"two"), Err(JobError::DuplicateIoId));
}

#[test]
fn duplicate_input_then_output_refused() {
    let mut r = Registry::new();
    let h = r.create().unwrap();
    assert_eq!(r.add_input_buffer(h, 7, b"one"), Ok(()));
    assert_eq!(r.add_output_buffer(h, 7), Err(JobError::DuplicateIoId));
}

#[test]
fn duplicate_output_then_output_refused() {
    let mut r = Registry::new();
    let h = r.create().unwrap();
    assert_eq!(r.add_output_buffer(h, 7), Ok(()));
    assert_eq!(r.add_output_buffer(h, 7), Err(JobError::DuplicateIoId));
}

#[test]
fn duplicate_output_then_input_refused() {
    let mut r = Registry::new();
    let h = r.create().unwrap();
    assert_eq!(r.add_output_buffer(h, 7), Ok(()));
    assert_eq!(r.add_input_buffer(h, 7, b"one"), Err(JobError::DuplicateIoId));
}

#[test]
fn duplicate_file_input_refused() {
    let mut r = Registry::new();
    let h = r.create().unwrap();
    assert_eq!(r.add_input_file(h, 3, String::from("a.png")), Ok(()));
    assert_eq!(
        r.add_input_file(h, 3, String::from("b.png")),
        Err(JobError::DuplicateIoId)
    );
}

#[test]
fn same_io_id_on_two_slots_never_conflicts() {
    let mut r = Registry::new();
    let h1 = r.create().unwrap();
    let h2 = r.create().unwrap();
    assert_eq!(r.add_input_buffer(h1, 7, b"one"), Ok(()));
    assert_eq!(r.add_input_buffer(h2, 7, b"two"), Ok(()));
    assert_eq!(r.add_output_buffer(h1, 8), Ok(()));
    assert_eq!(r.add_output_buffer(h2, 8), Ok(()));
}

#[test]
fn get_output_on_input_id_is_not_found() {
    let mut r = Registry::new();
    let h = r.create().unwrap();
    assert_eq!(r.add_input_buffer(h, 0, b"abc"), Ok(()));
    // an input identifier reads as OutputNotFound, never OutputNotReady
    assert_eq!(r.get_output_buffer(h, 0), Err(JobError::OutputNotFound));
}

#[test]
fn get_output_on_file_input_id_is_not_found() {
    let mut r = Registry::new();
    let h = r.create().unwrap();
    assert_eq!(r.add_input_file(h, 0, String::from("a.png")), Ok(()));
    assert_eq!(r.get_output_buffer(h, 0), Err(JobError::OutputNotFound));
}

#[test]
fn get_output_on_unregistered_id_is_not_found() {
    let mut r = Registry::new();
    let h = r.create().unwrap();
    assert_eq!(r.get_output_buffer(h, 9), Err(JobError::OutputNotFound));
}

#[test]
fn get_output_before_any_message_is_not_ready() {
    let mut r = Registry::new();
    let h = r.create().unwrap();
    assert_eq!(r.add_output_buffer(h, 1), Ok(()));
    assert_eq!(r.get_output_buffer(h, 1), Err(JobError::OutputNotReady));
}
