use imageflow_ex::errors::{JobError, MessageFault};
use imageflow_ex::protocol::parse_copy_payload;
use imageflow_ex::registry::Registry;

#[test]
fn copy_scenario() {
    let mut r = Registry::new();
    let h = r.create().unwrap();
    assert_eq!(r.add_input_buffer(h, 0, b"abc"), Ok(()));
    assert_eq!(r.add_output_buffer(h, 1), Ok(()));
    let resp = r.message(h, b"copy", b"{\"from\":0,\"to\":1}");
    assert_eq!(resp, Ok(b"{\"success\":true}".to_vec()));
    assert_eq!(r.get_output_buffer(h, 1), Ok(b"abc".to_vec()));
    assert_eq!(r.destroy(h), Ok(()));
    assert_eq!(r.get_output_buffer(h, 1), Err(JobError::HandleNotFound));
}

#[test]
fn round_trip_preserves_bytes() {
    let mut r = Registry::new();
    let h = r.create().unwrap();
    let data: Vec<u8> = vec![0, 255, 17, 104, 101, 108, 108, 111];
    assert_eq!(r.add_input_buffer(h, 5, &data), Ok(()));
    assert_eq!(r.add_output_buffer(h, 7), Ok(()));
    assert!(r.message(h, b"copy", b"{\"from\":5,\"to\":7}").is_ok());
    assert_eq!(r.get_output_buffer(h, 7), Ok(data));
}

#[test]
fn round_trip_preserves_empty_buffer() {
    let mut r = Registry::new();
    let h = r.create().unwrap();
    assert_eq!(r.add_input_buffer(h, 0, b""), Ok(()));
    assert_eq!(r.add_output_buffer(h, 1), Ok(()));
    assert!(r.message(h, b"copy", b"{\"from\":0,\"to\":1}").is_ok());
    assert_eq!(r.get_output_buffer(h, 1), Ok(Vec::new()));
}

#[test]
fn unknown_method_faults() {
    let mut r = Registry::new();
    let h = r.create().unwrap();
    assert_eq!(
        r.message(h, b"blur", b"{\"from\":0,\"to\":1}"),
        Err(JobError::MessageError(MessageFault::UnknownMethod))
    );
}

#[test]
fn malformed_payload_faults() {
    let mut r = Registry::new();
    let h = r.create().unwrap();
    assert_eq!(
        r.message(h, b"copy", b"{}"),
        Err(JobError::MessageError(MessageFault::MalformedPayload))
    );
    assert_eq!(
        r.message(h, b"copy", b"{\"from\":,\"to\":1}"),
        Err(JobError::MessageError(MessageFault::MalformedPayload))
    );
    assert_eq!(
        r.message(h, b"copy", b"{\"from\":0,\"to\":1} "),
        Err(JobError::MessageError(MessageFault::MalformedPayload))
    );
    // more than nine digits never parses
    assert_eq!(
        r.message(h, b"copy", b"{\"from\":1234567890,\"to\":1}"),
        Err(JobError::MessageError(MessageFault::MalformedPayload))
    );
}

#[test]
fn input_missing_faults() {
    let mut r = Registry::new();
    let h = r.create().unwrap();
    assert_eq!(r.add_output_buffer(h, 1), Ok(()));
    // nothing registered under the source identifier
    assert_eq!(
        r.message(h, b"copy", b"{\"from\":0,\"to\":1}"),
        Err(JobError::MessageError(MessageFault::InputMissing))
    );
    // an output under the source identifier is no input either
    assert_eq!(
        r.message(h, b"copy", b"{\"from\":1,\"to\":1}"),
        Err(JobError::MessageError(MessageFault::InputMissing))
    );
}

#[test]
fn file_backed_input_is_not_copyable() {
    let mut r = Registry::new();
    let h = r.create().unwrap();
    assert_eq!(r.add_input_file(h, 0, String::from("a.png")), Ok(()));
    assert_eq!(r.add_output_buffer(h, 1), Ok(()));
    assert_eq!(
        r.message(h, b"copy", b"{\"from\":0,\"to\":1}"),
        Err(JobError::MessageError(MessageFault::InputMissing))
    );
}

#[test]
fn output_missing_faults() {
    let mut r = Registry::new();
    let h = r.create().unwrap();
    assert_eq!(r.add_input_buffer(h, 0, b"abc"), Ok(()));
    // nothing registered under the destination identifier
    assert_eq!(
        r.message(h, b"copy", b"{\"from\":0,\"to\":1}"),
        Err(JobError::MessageError(MessageFault::OutputMissing))
    );
    // an input under the destination identifier is no output either
    assert_eq!(r.add_input_buffer(h, 1, b"xyz"), Ok(()));
    assert_eq!(
        r.message(h, b"copy", b"{\"from\":0,\"to\":1}"),
        Err(JobError::MessageError(MessageFault::OutputMissing))
    );
}

#[test]
fn failed_message_leaves_slot_usable() {
    let mut r = Registry::new();
    let h = r.create().unwrap();
    assert_eq!(r.add_input_buffer(h, 0, b"abc"), Ok(()));
    assert!(r.message(h, b"copy", b"{\"from\":0,\"to\":1}").is_err());
    assert_eq!(r.add_output_buffer(h, 1), Ok(()));
    assert!(r.message(h, b"copy", b"{\"from\":0,\"to\":1}").is_ok());
    assert_eq!(r.get_output_buffer(h, 1), Ok(b"abc".to_vec()));
}

#[test]
fn message_overwrites_earlier_output() {
    let mut r = Registry::new();
    let h = r.create().unwrap();
    assert_eq!(r.add_input_buffer(h, 0, b"first"), Ok(()));
    assert_eq!(r.add_input_buffer(h, 2, b"second"), Ok(()));
    assert_eq!(r.add_output_buffer(h, 1), Ok(()));
    assert!(r.message(h, b"copy", b"{\"from\":0,\"to\":1}").is_ok());
    assert!(r.message(h, b"copy", b"{\"from\":2,\"to\":1}").is_ok());
    assert_eq!(r.get_output_buffer(h, 1), Ok(b"second".to_vec()));
}

#[test]
fn payload_parser_accepts_exact_shape() {
    assert_eq!(parse_copy_payload(b"{\"from\":0,\"to\":1}"), Some((0, 1)));
    assert_eq!(
        parse_copy_payload(b"{\"from\":123456789,\"to\":987654321}"),
        Some((123456789, 987654321))
    );
    assert_eq!(parse_copy_payload(b"{\"from\":007,\"to\":1}"), Some((7, 1)));
}

#[test]
fn payload_parser_rejects_other_shapes() {
    assert_eq!(parse_copy_payload(b""), None);
    assert_eq!(parse_copy_payload(b"{\"from\":0,\"to\":}"), None);
    assert_eq!(parse_copy_payload(b"{\"to\":1,\"from\":0}"), None);
    assert_eq!(parse_copy_payload(b"{ \"from\":0,\"to\":1}"), None);
    assert_eq!(parse_copy_payload(b"{\"from\":-1,\"to\":1}"), None);
    assert_eq!(parse_copy_payload(b"{\"from\":0,\"to\":1}x"), None);
    assert_eq!(parse_copy_payload(b"{\"from\":1234567890,\"to\":1}"), None);
}
